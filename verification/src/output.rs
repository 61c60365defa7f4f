//! Output formatting for search results.
//!
//! A writer renders matches, context lines, file names and counts in one of
//! several formats, with color, separators and trimming as configured. What it
//! renders gathers in a buffer, from which the caller takes it.
use crate::clock::{seconds_text, Elapsed};
use crate::json::{json_text, lemma_trees_push, print, trees, Json, JsonTree};
use crate::slices::{
    floor_at, floor_boundary, is_boundary, lemma_encode_concat, lemma_ends_are_boundaries,
    lemma_floor, lemma_piece, piece, size_of, slice,
};
use crate::text::{
    add_number, add_text, byte_len, chars_of, decimal, is_space, number, owned, replace_char,
    replaced, same, space, string_of, trim, trimmed, without_end, without_start,
};
use vstd::prelude::*;
use vstd::utf8::{
    encode_utf8, encode_utf8_decode_utf8, encode_utf8_valid_utf8,
    is_char_boundary_iff_not_is_continuation_byte,
};

verus! {

/// A single match result.
pub struct Match {
    pub file: String,
    pub line_number: usize,
    pub content: String,
    /// 1-based byte columns of each match in `content`, in source-byte terms.
    pub columns: Vec<usize>,
    /// Byte ranges of the matches inside `content`, used for highlighting,
    /// per-match rows and JSON `submatches`.
    pub spans: Vec<(usize, usize)>,
    /// Byte offset of the start of `content` within the file.
    pub absolute_offset: usize,
    /// Bytes of line terminator stripped from `content`; a limit on columns
    /// measures the line including its terminator.
    pub terminator_len: usize,
}

/// A context (non-matching) line surrounding a match.
pub struct ContextLine {
    pub file: String,
    pub line_number: usize,
    pub content: String,
    /// Byte offset of the start of `content` within the file.
    pub absolute_offset: usize,
    /// Bytes of line terminator stripped from `content`.
    pub terminator_len: usize,
}

/// What a [`Match`] holds.
pub struct MatchView {
    pub file: Seq<char>,
    pub line_number: usize,
    pub content: Seq<char>,
    pub columns: Seq<usize>,
    pub spans: Seq<(usize, usize)>,
    pub absolute_offset: usize,
    pub terminator_len: usize,
}

/// What a [`ContextLine`] holds.
pub struct ContextView {
    pub file: Seq<char>,
    pub line_number: usize,
    pub content: Seq<char>,
    pub absolute_offset: usize,
    pub terminator_len: usize,
}

impl View for Match {
    type V = MatchView;

    open spec fn view(&self) -> MatchView {
        MatchView {
            file: self.file@,
            line_number: self.line_number,
            content: self.content@,
            columns: self.columns@,
            spans: self.spans@,
            absolute_offset: self.absolute_offset,
            terminator_len: self.terminator_len,
        }
    }
}

impl View for ContextLine {
    type V = ContextView;

    open spec fn view(&self) -> ContextView {
        ContextView {
            file: self.file@,
            line_number: self.line_number,
            content: self.content@,
            absolute_offset: self.absolute_offset,
            terminator_len: self.terminator_len,
        }
    }
}

#[derive(Clone, Copy, Debug, PartialEq, Eq, Structural)]
pub enum ColorMode {
    Auto,
    Always,
    Never,
}

impl ColorMode {
    /// Whether highlighting will actually be emitted, on a terminal or not.
    pub open spec fn enabled(self, is_tty: bool) -> bool {
        match self {
            ColorMode::Auto => is_tty,
            ColorMode::Always => true,
            ColorMode::Never => false,
        }
    }

    /// The mode with a name.
    pub open spec fn named(s: Seq<char>) -> Option<ColorMode> {
        if s == "auto"@ {
            Some(ColorMode::Auto)
        } else if s == "always"@ {
            Some(ColorMode::Always)
        } else if s == "never"@ {
            Some(ColorMode::Never)
        } else {
            None
        }
    }

    /// Whether highlighting will actually be emitted, on a terminal or not.
    pub fn is_enabled(self, is_tty: bool) -> (r: bool)
        ensures
            r == self.enabled(is_tty),
    {
        match self {
            ColorMode::Auto => is_tty,
            ColorMode::Always => true,
            ColorMode::Never => false,
        }
    }

    /// The mode with a name.
    pub fn from_str_opt(s: &str) -> (r: Option<ColorMode>)
        ensures
            r == ColorMode::named(s@),
    {
        if same(s, "auto") {
            Some(ColorMode::Auto)
        } else if same(s, "always") {
            Some(ColorMode::Always)
        } else if same(s, "never") {
            Some(ColorMode::Never)
        } else {
            None
        }
    }
}

#[derive(Clone, Copy, Debug, PartialEq, Eq, Structural)]
pub enum OutputFormat {
    Heading,
    Flat,
    Json,
    Vimgrep,
    FilesOnly,
    Count,
}

/// How to render the path of a file found under a search argument, which
/// survives verbatim into every printed path.
#[derive(Debug, PartialEq, Eq)]
pub enum PathDisplay {
    /// No path argument: print the path relative to the current directory.
    Bare,
    /// A directory argument, as typed and already terminated with a separator.
    /// The relative remainder is appended to it.
    Prefix(String),
    /// A single-file argument, as typed. Printed verbatim.
    Exact(String),
}

/// What a [`PathDisplay`] is.
pub enum DisplayView {
    Bare,
    Prefix(Seq<char>),
    Exact(Seq<char>),
}

impl View for PathDisplay {
    type V = DisplayView;

    open spec fn view(&self) -> DisplayView {
        match self {
            PathDisplay::Bare => DisplayView::Bare,
            PathDisplay::Prefix(p) => DisplayView::Prefix(p@),
            PathDisplay::Exact(p) => DisplayView::Exact(p@),
        }
    }
}

impl PathDisplay {
    /// A copy.
    pub fn copy(&self) -> (r: PathDisplay)
        ensures
            r@ == self@,
            r == *self,
    {
        match self {
            PathDisplay::Bare => PathDisplay::Bare,
            PathDisplay::Prefix(p) => PathDisplay::Prefix(p.clone()),
            PathDisplay::Exact(p) => PathDisplay::Exact(p.clone()),
        }
    }
}

pub struct OutputConfig {
    pub format: OutputFormat,
    pub color: ColorMode,
    pub heading: Option<bool>,
    pub null: bool,
    pub trim: bool,
    pub no_filename: bool,
    pub no_line_number: bool,
    /// Whether context lines were asked for, without which a gap between two
    /// matching lines gets no separator.
    pub context: bool,
    /// Prefix each matching line with its first match's column.
    pub column: bool,
    /// Prefix each line with its 0-based byte offset.
    pub byte_offset: bool,
    /// Suppress lines longer than this many bytes.
    pub max_columns: Option<usize>,
    /// Print a truncated preview instead of dropping an over-long line.
    pub max_columns_preview: bool,
    /// What separates context blocks; nothing does where it is absent.
    pub context_separator: Option<String>,
    /// Between the fields of a matching line.
    pub field_match_separator: String,
    /// Between the fields of a context line.
    pub field_context_separator: String,
    /// Substituted for the separators in paths.
    pub path_separator: Option<String>,
    /// How to reconstruct the printed path from a relative one.
    pub path_display: PathDisplay,
    /// Flush after every line.
    pub line_buffered: bool,
}

impl Default for OutputConfig {
    fn default() -> (r: OutputConfig)
        ensures
            r.format == OutputFormat::Heading,
            r.color == ColorMode::Auto,
            r.heading is None,
            !r.null && !r.trim && !r.no_filename && !r.no_line_number && !r.context,
            !r.column && !r.byte_offset && !r.max_columns_preview && !r.line_buffered,
            r.max_columns is None,
            r.context_separator matches Some(s) && s@ == "--"@,
            r.field_match_separator@ == ":"@,
            r.field_context_separator@ == "-"@,
            r.path_separator is None,
            r.path_display == PathDisplay::Bare,
    {
        OutputConfig {
            format: OutputFormat::Heading,
            color: ColorMode::Auto,
            heading: None,
            null: false,
            trim: false,
            no_filename: false,
            no_line_number: false,
            context: false,
            column: false,
            byte_offset: false,
            max_columns: None,
            max_columns_preview: false,
            context_separator: Some("--".to_string()),
            field_match_separator: ":".to_string(),
            field_context_separator: "-".to_string(),
            path_separator: None,
            path_display: PathDisplay::Bare,
            line_buffered: false,
        }
    }
}

impl OutputConfig {
    /// Whether output is a count of matching lines or files.
    pub fn is_count(&self) -> (r: bool)
        ensures
            r == (self.format == OutputFormat::Count),
    {
        self.format == OutputFormat::Count
    }
}

/// Running totals for JSON `stats` objects. They count modulo 2^64.
#[derive(Clone, Copy, Debug, PartialEq, Eq, Structural)]
pub struct Stats {
    pub searches: u64,
    pub searches_with_match: u64,
    pub bytes_searched: u64,
    pub bytes_printed: u64,
    pub matched_lines: u64,
    pub matches: u64,
}

/// The sum of two totals, modulo 2^64.
pub open spec fn plus(a: u64, b: u64) -> u64 {
    a.wrapping_add(b)
}

impl Stats {
    pub open spec fn none() -> Stats {
        Stats {
            searches: 0,
            searches_with_match: 0,
            bytes_searched: 0,
            bytes_printed: 0,
            matched_lines: 0,
            matches: 0,
        }
    }

    pub open spec fn sum(self, other: Stats) -> Stats {
        Stats {
            searches: plus(self.searches, other.searches),
            searches_with_match: plus(self.searches_with_match, other.searches_with_match),
            bytes_searched: plus(self.bytes_searched, other.bytes_searched),
            bytes_printed: plus(self.bytes_printed, other.bytes_printed),
            matched_lines: plus(self.matched_lines, other.matched_lines),
            matches: plus(self.matches, other.matches),
        }
    }

    fn zero() -> (r: Stats)
        ensures
            r == Stats::none(),
    {
        Stats {
            searches: 0,
            searches_with_match: 0,
            bytes_searched: 0,
            bytes_printed: 0,
            matched_lines: 0,
            matches: 0,
        }
    }

    fn added(self, other: Stats) -> (r: Stats)
        ensures
            r == self.sum(other),
    {
        Stats {
            searches: self.searches.wrapping_add(other.searches),
            searches_with_match: self.searches_with_match.wrapping_add(other.searches_with_match),
            bytes_searched: self.bytes_searched.wrapping_add(other.bytes_searched),
            bytes_printed: self.bytes_printed.wrapping_add(other.bytes_printed),
            matched_lines: self.matched_lines.wrapping_add(other.matched_lines),
            matches: self.matches.wrapping_add(other.matches),
        }
    }

    fn to_json(self, elapsed: Elapsed) -> (r: Json)
        requires
            elapsed.wf(),
        ensures
            r@ == stats_tree(self, elapsed),
    {
        Json::object().put("elapsed", duration_json(elapsed)).put(
            "searches",
            Json::unsigned(self.searches),
        ).put("searches_with_match", Json::unsigned(self.searches_with_match)).put(
            "bytes_searched",
            Json::unsigned(self.bytes_searched),
        ).put("bytes_printed", Json::unsigned(self.bytes_printed)).put(
            "matched_lines",
            Json::unsigned(self.matched_lines),
        ).put("matches", Json::unsigned(self.matches))
    }
}

/// A length of time as data.
pub open spec fn duration_tree(d: Elapsed) -> JsonTree {
    JsonTree::Object(
        Map::<Seq<char>, JsonTree>::empty().insert("secs"@, JsonTree::unsigned(d.secs)).insert(
            "nanos"@,
            JsonTree::unsigned(d.nanos as u64),
        ).insert("human"@, JsonTree::Text(seconds_text(d.secs, d.nanos, 6) + "s"@)),
    )
}

/// Totals as data.
pub open spec fn stats_tree(s: Stats, elapsed: Elapsed) -> JsonTree {
    JsonTree::Object(
        Map::<Seq<char>, JsonTree>::empty().insert("elapsed"@, duration_tree(elapsed)).insert(
            "searches"@,
            JsonTree::unsigned(s.searches),
        ).insert("searches_with_match"@, JsonTree::unsigned(s.searches_with_match)).insert(
            "bytes_searched"@,
            JsonTree::unsigned(s.bytes_searched),
        ).insert("bytes_printed"@, JsonTree::unsigned(s.bytes_printed)).insert(
            "matched_lines"@,
            JsonTree::unsigned(s.matched_lines),
        ).insert("matches"@, JsonTree::unsigned(s.matches)),
    )
}

fn duration_json(d: Elapsed) -> (r: Json)
    requires
        d.wf(),
    ensures
        r@ == duration_tree(d),
{
    let mut human = d.in_seconds(6);
    add_text(&mut human, "s");
    Json::object().put("secs", Json::unsigned(d.secs)).put(
        "nanos",
        Json::unsigned(d.nanos as u64),
    ).put("human", Json::Text(human))
}

/// `std::path::MAIN_SEPARATOR`: the platform's path separator, a slash or a
/// backslash.
#[verifier::external_body]
pub(crate) fn main_separator() -> (c: char)
    ensures
        c == '/' || c == '\\',
{
    std::path::MAIN_SEPARATOR
}

/// A text with every slash of either kind replaced by `sep`.
pub open spec fn separators_replaced(s: Seq<char>, sep: Seq<char>) -> Seq<char>
    decreases s.len(),
{
    if s.len() == 0 {
        Seq::empty()
    } else {
        separators_replaced(s.drop_last(), sep) + if s.last() == '/' || s.last() == '\\' {
            sep
        } else {
            seq![s.last()]
        }
    }
}

fn replace_separators(s: &str, sep: &str) -> (r: String)
    ensures
        r@ == separators_replaced(s@, sep@),
{
    let chars = chars_of(s);
    let mut out = String::new();
    let mut i: usize = 0;
    assert(chars@.take(0) =~= Seq::<char>::empty());
    while i < chars.len()
        invariant
            i <= chars@.len(),
            out@ == separators_replaced(chars@.take(i as int), sep@),
        decreases chars@.len() - i,
    {
        let ghost before = out@;
        assert(chars@.take(i + 1).drop_last() =~= chars@.take(i as int));
        assert(chars@.take(i + 1).last() == chars@[i as int]);
        if chars[i] == '/' || chars[i] == '\\' {
            add_text(&mut out, sep);
        } else {
            out.push(chars[i]);
            assert(out@ =~= before + seq![chars@[i as int]]);
        }
        i += 1;
    }
    assert(chars@.take(chars@.len() as int) =~= chars@);
    out
}

/// A `/`-separated path with the platform's separator.
pub open spec fn native_path(path: Seq<char>, separator: char) -> Seq<char> {
    if separator == '/' {
        path
    } else {
        replaced(path, '/', separator)
    }
}

fn native_separators(path: &str, separator: char) -> (r: String)
    ensures
        r@ == native_path(path@, separator),
{
    if separator == '/' {
        owned(path)
    } else {
        replace_char(path, '/', separator)
    }
}

/// A path as it is printed: what was typed, verbatim, and behind it the
/// relative path with the platform's separator.
pub open spec fn printed_path(config: OutputConfig, separator: char, file: Seq<char>) -> Seq<char> {
    let joined = match config.path_display {
        PathDisplay::Exact(p) => p@,
        PathDisplay::Prefix(p) => p@ + native_path(file, separator),
        PathDisplay::Bare => native_path(file, separator),
    };
    match config.path_separator {
        Some(sep) => separators_replaced(joined, sep@),
        None => joined,
    }
}

/// The text of a line as it is printed.
pub open spec fn printed_content(config: OutputConfig, s: Seq<char>) -> Seq<char> {
    if config.trim {
        trimmed(s)
    } else {
        s
    }
}

/// How many bytes trimming takes off the start.
pub open spec fn trimmed_off(s: Seq<char>) -> int {
    size_of(s) - size_of(without_start(s, |c: char| is_space(c)))
}

/// A span once trimming has shifted the text, none where nothing is left of
/// it.
pub open spec fn shifted(span: (usize, usize), delta: int, size: int) -> Option<(usize, usize)> {
    let a = if span.0 < delta {
        0
    } else if span.0 - delta > size {
        size
    } else {
        span.0 - delta
    };
    let b = if span.1 < delta {
        0
    } else if span.1 - delta > size {
        size
    } else {
        span.1 - delta
    };
    if b > a {
        Some((a as usize, b as usize))
    } else {
        None
    }
}

/// The spans of the matches in a line as it is printed.
pub open spec fn printed_spans(
    config: OutputConfig,
    s: Seq<char>,
    spans: Seq<(usize, usize)>,
) -> Seq<(usize, usize)> {
    if config.trim {
        spans.filter_map(
            |span: (usize, usize)| shifted(span, trimmed_off(s), size_of(trimmed(s)) as int),
        )
    } else {
        spans
    }
}

/// Whether a line with its terminator is longer than is printed.
pub open spec fn is_over_long(config: OutputConfig, content: Seq<char>, terminator_len: usize) -> bool {
    config.max_columns matches Some(limit) && size_of(content) + terminator_len > limit
}

/// What stands for an over-long line: a preview, or a note.
pub open spec fn clipped_text(config: OutputConfig, content: Seq<char>, is_match: bool) -> Seq<char> {
    if config.max_columns_preview {
        piece(content, 0, floor_at(content, config.max_columns->0 as int))
            + " [... omitted end of long line]"@
    } else if is_match {
        "[Omitted long matching line]"@
    } else {
        "[Omitted long context line]"@
    }
}

/// A line's text from the byte `pos` on, with `on` in front of each match and
/// `off` behind it.
pub open spec fn marked_from(
    content: Seq<char>,
    spans: Seq<(usize, usize)>,
    pos: int,
    on: Seq<char>,
    off: Seq<char>,
) -> Seq<char>
    decreases spans.len(),
{
    if spans.len() == 0 {
        piece(content, pos, size_of(content) as int)
    } else {
        let s0 = floor_at(content, spans[0].0 as int);
        let start = if s0 > pos {
            s0
        } else {
            pos
        };
        let e0 = floor_at(content, spans[0].1 as int);
        let end = if e0 > start {
            e0
        } else {
            start
        };
        piece(content, pos, start) + (if end > start {
            on + piece(content, start, end) + off
        } else {
            Seq::empty()
        }) + marked_from(content, spans.skip(1), end, on, off)
    }
}

/// A line's text with its matches colored, from the byte `pos` on.
pub open spec fn colored_from(
    content: Seq<char>,
    spans: Seq<(usize, usize)>,
    pos: int,
) -> Seq<char> {
    marked_from(content, spans, pos, "\x1b[1;31m"@, "\x1b[0m"@)
}

/// A line's text with its matches colored, where color is used.
pub open spec fn highlighted(
    use_color: bool,
    content: Seq<char>,
    spans: Seq<(usize, usize)>,
) -> Seq<char> {
    if !use_color || spans.len() == 0 {
        content
    } else {
        colored_from(content, spans, 0)
    }
}

proof fn lemma_without_start(s: Seq<char>, p: spec_fn(char) -> bool)
    ensures
        exists|k: int|
            0 <= k <= s.len() && #[trigger] s.skip(k) == without_start(s, p),
    decreases s.len(),
{
    if s.len() > 0 && p(s[0]) {
        lemma_without_start(s.skip(1), p);
        let k = choose|k: int|
            0 <= k <= s.skip(1).len() && #[trigger] s.skip(1).skip(k) == without_start(
                s.skip(1),
                p,
            );
        assert(s.skip(k + 1) =~= s.skip(1).skip(k));
    } else {
        assert(s.skip(0) =~= s);
    }
}

proof fn lemma_without_end(s: Seq<char>, p: spec_fn(char) -> bool)
    ensures
        exists|k: int|
            0 <= k <= s.len() && #[trigger] s.take(k) == without_end(s, p),
    decreases s.len(),
{
    if s.len() > 0 && p(s.last()) {
        lemma_without_end(s.drop_last(), p);
        let k = choose|k: int|
            0 <= k <= s.drop_last().len() && #[trigger] s.drop_last().take(k) == without_end(
                s.drop_last(),
                p,
            );
        assert(s.take(k) =~= s.drop_last().take(k));
    } else {
        assert(s.take(s.len() as int) =~= s);
    }
}

/// The bytes of a trimmed text stand in those of the text, from where the
/// white space at the start ends.
proof fn lemma_trimmed_bytes(s: Seq<char>)
    ensures
        0 <= trimmed_off(s),
        trimmed_off(s) + size_of(trimmed(s)) <= size_of(s),
        encode_utf8(trimmed(s)) == encode_utf8(s).subrange(
            trimmed_off(s),
            trimmed_off(s) + size_of(trimmed(s)),
        ),
{
    let p = |c: char| is_space(c);
    let t = without_start(s, p);
    lemma_without_start(s, p);
    let k = choose|k: int| 0 <= k <= s.len() && #[trigger] s.skip(k) == t;
    lemma_without_end(t, p);
    let m = choose|m: int| 0 <= m <= t.len() && #[trigger] t.take(m) == without_end(t, p);
    assert(s =~= s.take(k) + t);
    assert(t =~= t.take(m) + t.skip(m));
    lemma_encode_concat(s.take(k), t);
    lemma_encode_concat(t.take(m), t.skip(m));
    assert(encode_utf8(trimmed(s)) =~= encode_utf8(s).subrange(
        trimmed_off(s),
        trimmed_off(s) + size_of(trimmed(s)),
    ));
}

/// Whether every span lies in a text and starts and ends where a character
/// does.
pub open spec fn spans_fit(s: Seq<char>, spans: Seq<(usize, usize)>) -> bool {
    forall|i: int|
        0 <= i < spans.len() ==> (#[trigger] spans[i]).0 <= spans[i].1 && is_boundary(
            s,
            spans[i].0 as int,
        ) && is_boundary(s, spans[i].1 as int)
}

proof fn lemma_shifted_boundary(s: Seq<char>, at: int)
    requires
        is_boundary(s, at),
    ensures
        ({
            let size = size_of(trimmed(s)) as int;
            let delta = trimmed_off(s);
            let moved = if at < delta {
                0
            } else if at - delta > size {
                size
            } else {
                at - delta
            };
            is_boundary(trimmed(s), moved)
        }),
{
    let t = trimmed(s);
    let delta = trimmed_off(s);
    lemma_trimmed_bytes(s);
    lemma_ends_are_boundaries(t);
    if delta < at && at - delta < size_of(t) {
        encode_utf8_valid_utf8(s);
        encode_utf8_valid_utf8(t);
        is_char_boundary_iff_not_is_continuation_byte(encode_utf8(s), at);
        is_char_boundary_iff_not_is_continuation_byte(encode_utf8(t), at - delta);
    }
}

/// Spans that fit a text fit it once it is trimmed.
pub proof fn lemma_printed_spans_fit(config: OutputConfig, s: Seq<char>, spans: Seq<(usize, usize)>)
    requires
        spans_fit(s, spans),
    ensures
        spans_fit(printed_content(config, s), printed_spans(config, s, spans)),
    decreases spans.len(),
{
    if config.trim && spans.len() > 0 {
        let f = |span: (usize, usize)|
            shifted(span, trimmed_off(s), size_of(trimmed(s)) as int);
        let front = spans.drop_last();
        assert forall|i: int| 0 <= i < front.len() implies (#[trigger] front[i]).0 <= front[i].1
            && is_boundary(s, front[i].0 as int) && is_boundary(s, front[i].1 as int) by {
            assert(front[i] == spans[i]);
        }
        lemma_printed_spans_fit(config, s, front);
        let last = spans[spans.len() - 1];
        assert(spans.last() == last);
        lemma_trimmed_bytes(s);
        lemma_shifted_boundary(s, last.0 as int);
        lemma_shifted_boundary(s, last.1 as int);
        let all = printed_spans(config, s, spans);
        let before = printed_spans(config, s, front);
        match f(last) {
            Some(x) => {
                assert(all == before + seq![x]);
                assert forall|i: int| 0 <= i < all.len() implies (#[trigger] all[i]).0 <= all[i].1
                    && is_boundary(trimmed(s), all[i].0 as int) && is_boundary(
                    trimmed(s),
                    all[i].1 as int,
                ) by {
                    if i < before.len() {
                        assert(all[i] == before[i]);
                    } else {
                        assert(all[i] == x);
                    }
                }
            },
            None => {},
        }
    }
}

fn shift(at: usize, delta: usize, size: usize) -> (r: usize)
    ensures
        r == (if at < delta {
            0
        } else if at - delta > size {
            size as int
        } else {
            at - delta
        }),
{
    if at < delta {
        0
    } else if at - delta > size {
        size
    } else {
        at - delta
    }
}

fn leading_space(s: &str) -> (r: usize)
    ensures
        r == trimmed_off(s@),
{
    let p = Ghost(|c: char| is_space(c));
    let chars = chars_of(s);
    let mut from: usize = 0;
    assert(chars@.skip(0) =~= chars@);
    while from < chars.len() && space(chars[from])
        invariant
            from <= chars@.len(),
            chars@ == s@,
            p@ == (|c: char| is_space(c)),
            without_start(s@, p@) == without_start(chars@.skip(from as int), p@),
        decreases chars@.len() - from,
    {
        assert(chars@.skip(from as int).skip(1) =~= chars@.skip(from + 1));
        from += 1;
    }
    let lead = string_of(&chars, 0, from);
    proof {
        assert(s@ =~= lead@ + chars@.skip(from as int));
        lemma_encode_concat(lead@, chars@.skip(from as int));
    }
    byte_len(lead.as_str())
}

/// The text and the spans of a line as they are printed.
fn trim_adjust(config: &OutputConfig, s: &str, spans: &Vec<(usize, usize)>) -> (r: (
    String,
    Vec<(usize, usize)>,
))
    ensures
        r.0@ == printed_content(*config, s@),
        r.1@ == printed_spans(*config, s@, spans@),
{
    let mut out: Vec<(usize, usize)> = Vec::new();
    let mut i: usize = 0;
    if !config.trim {
        while i < spans.len()
            invariant
                i <= spans@.len(),
                out@ == spans@.take(i as int),
            decreases spans@.len() - i,
        {
            out.push(spans[i]);
            assert(spans@.take(i + 1) =~= spans@.take(i as int).push(spans@[i as int]));
            i += 1;
        }
        assert(spans@.take(spans@.len() as int) =~= spans@);
        return (owned(s), out);
    }
    let content = trim(s);
    let size: usize = byte_len(content.as_str());
    let delta: usize = leading_space(s);
    let ghost f = |span: (usize, usize)| shifted(span, trimmed_off(s@), size_of(trimmed(s@)) as int);
    assert(out@ =~= spans@.take(0).filter_map(f));
    while i < spans.len()
        invariant
            i <= spans@.len(),
            size == size_of(trimmed(s@)),
            delta == trimmed_off(s@),
            f == (|span: (usize, usize)|
                shifted(span, trimmed_off(s@), size_of(trimmed(s@)) as int)),
            out@ == spans@.take(i as int).filter_map(f),
        decreases spans@.len() - i,
    {
        let ghost before = out@;
        assert(spans@.take(i + 1).drop_last() =~= spans@.take(i as int));
        assert(spans@.take(i + 1).last() == spans@[i as int]);
        let a: usize = shift(spans[i].0, delta, size);
        let b: usize = shift(spans[i].1, delta, size);
        if b > a {
            out.push((a, b));
            assert(out@ =~= before + seq![(a, b)]);
        }
        i += 1;
    }
    assert(spans@.take(spans@.len() as int) =~= spans@);
    (content, out)
}

/// What stands for a line that is longer than is printed; none where it is
/// not.
fn apply_max_columns(
    config: &OutputConfig,
    content: &str,
    terminator_len: usize,
    is_match: bool,
) -> (r: Option<String>)
    ensures
        match r {
            Some(t) => is_over_long(*config, content@, terminator_len) && t@ == clipped_text(
                *config,
                content@,
                is_match,
            ),
            None => !is_over_long(*config, content@, terminator_len),
        },
{
    let limit: usize = match config.max_columns {
        Some(limit) => limit,
        None => return None,
    };
    let size: usize = byte_len(content);
    if size <= limit && terminator_len <= limit - size {
        return None;
    }
    if config.max_columns_preview {
        let cut: usize = floor_boundary(content, limit);
        proof {
            lemma_ends_are_boundaries(content@);
        }
        let mut out = owned(slice(content, 0, cut));
        add_text(&mut out, " [... omitted end of long line]");
        return Some(out);
    }
    if is_match {
        Some("[Omitted long matching line]".to_string())
    } else {
        Some("[Omitted long context line]".to_string())
    }
}

/// Wraps each matched range with the match color.
fn highlight(use_color: bool, content: &str, spans: &Vec<(usize, usize)>) -> (r: String)
    ensures
        r@ == highlighted(use_color, content@, spans@),
{
    if !use_color || spans.len() == 0 {
        return owned(content);
    }
    let mut out = String::new();
    let mut pos: usize = 0;
    let mut i: usize = 0;
    let ghost all = colored_from(content@, spans@, 0);
    proof {
        lemma_ends_are_boundaries(content@);
        assert(spans@.skip(0) =~= spans@);
        assert(out@ + colored_from(content@, spans@.skip(0), 0) =~= all);
    }
    while i < spans.len()
        invariant
            i <= spans@.len(),
            is_boundary(content@, pos as int),
            all == out@ + colored_from(content@, spans@.skip(i as int), pos as int),
        decreases spans@.len() - i,
    {
        let s0: usize = floor_boundary(content, spans[i].0);
        let start: usize = if s0 > pos {
            s0
        } else {
            pos
        };
        let e0: usize = floor_boundary(content, spans[i].1);
        let end: usize = if e0 > start {
            e0
        } else {
            start
        };
        let ghost before = out@;
        let plain = slice(content, pos, start);
        let mut marked = String::new();
        if end > start {
            marked = owned("\x1b[1;31m");
            add_text(&mut marked, slice(content, start, end));
            add_text(&mut marked, "\x1b[0m");
        }
        add_text(&mut out, plain);
        add_text(&mut out, marked.as_str());
        proof {
            let rest = spans@.skip(i as int);
            assert(rest[0] == spans@[i as int]);
            assert(rest.skip(1) =~= spans@.skip(i + 1));
            let tail = colored_from(content@, spans@.skip(i + 1), end as int);
            assert(before + (plain@ + marked@ + tail) =~= before + plain@ + marked@ + tail);
        }
        pos = end;
        i += 1;
    }
    proof {
        lemma_ends_are_boundaries(content@);
        assert(spans@.skip(i as int).len() == 0);
    }
    let total: usize = byte_len(content);
    add_text(&mut out, slice(content, pos, total));
    out
}

/// Renders results into a buffer.
pub struct OutputWriter {
    config: OutputConfig,
    /// What has been rendered and not yet been taken.
    out: String,
    /// Whether what was rendered is to be handed on at once.
    flush_due: bool,
    current_file: Option<String>,
    use_color: bool,
    use_heading: bool,
    separator: char,
    /// The last line that was printed, for telling gaps between context blocks.
    last_printed_line: Option<(String, usize)>,
    /// The time of the clock that times are measured by.
    now: Elapsed,
    started: Elapsed,
    /// When the file that is open in JSON mode was opened.
    file_started: Elapsed,
    /// Totals of the file that is open in JSON mode.
    file_stats: Stats,
    /// Line of the last `match` event of the open file; a line that makes
    /// several events counts as one matching line.
    last_json_match_line: Option<usize>,
    total_stats: Stats,
    /// Size of the file being searched.
    pending_bytes_searched: u64,
    /// Offset of the first NUL byte in the file that is open in JSON mode.
    current_binary_offset: Option<u64>,
    all_bytes_searched: u64,
    all_searches: u64,
    total_matches: u64,
    total_matched_lines: u64,
}

/// What does not change while a writer works.
pub struct Style {
    pub config: OutputConfig,
    pub use_color: bool,
    pub use_heading: bool,
    pub separator: char,
}

/// What a writer has rendered and what it remembers.
#[verifier::ext_equal]
pub struct WriterState {
    pub out: Seq<char>,
    pub flush_due: bool,
    pub current_file: Option<Seq<char>>,
    pub last_printed: Option<(Seq<char>, usize)>,
    pub now: Elapsed,
    pub started: Elapsed,
    pub file_started: Elapsed,
    pub file_stats: Stats,
    pub last_json_match_line: Option<usize>,
    pub total_stats: Stats,
    pub pending_bytes_searched: u64,
    pub binary_offset: Option<u64>,
    pub all_bytes_searched: u64,
    pub all_searches: u64,
    pub total_matches: u64,
    pub total_matched_lines: u64,
}

impl View for OutputWriter {
    type V = WriterState;

    closed spec fn view(&self) -> WriterState {
        WriterState {
            out: self.out@,
            flush_due: self.flush_due,
            current_file: match self.current_file {
                Some(f) => Some(f@),
                None => None,
            },
            last_printed: match self.last_printed_line {
                Some((f, n)) => Some((f@, n)),
                None => None,
            },
            now: self.now,
            started: self.started,
            file_started: self.file_started,
            file_stats: self.file_stats,
            last_json_match_line: self.last_json_match_line,
            total_stats: self.total_stats,
            pending_bytes_searched: self.pending_bytes_searched,
            binary_offset: self.current_binary_offset,
            all_bytes_searched: self.all_bytes_searched,
            all_searches: self.all_searches,
            total_matches: self.total_matches,
            total_matched_lines: self.total_matched_lines,
        }
    }
}

/// A text under the key `text`.
pub open spec fn text_tree(text: Seq<char>) -> JsonTree {
    JsonTree::Object(Map::<Seq<char>, JsonTree>::empty().insert("text"@, JsonTree::Text(text)))
}

/// An event of the JSON stream.
pub open spec fn event_tree(kind: Seq<char>, data: Map<Seq<char>, JsonTree>) -> JsonTree {
    JsonTree::Object(
        Map::<Seq<char>, JsonTree>::empty().insert("type"@, JsonTree::Text(kind)).insert(
            "data"@,
            JsonTree::Object(data),
        ),
    )
}

/// The event that opens a file.
pub open spec fn begin_tree(path: Seq<char>) -> JsonTree {
    event_tree("begin"@, Map::<Seq<char>, JsonTree>::empty().insert("path"@, text_tree(path)))
}

/// The event that closes a file.
pub open spec fn end_tree(
    path: Seq<char>,
    binary_offset: Option<u64>,
    stats: Stats,
    elapsed: Elapsed,
) -> JsonTree {
    event_tree(
        "end"@,
        Map::<Seq<char>, JsonTree>::empty().insert("path"@, text_tree(path)).insert(
            "binary_offset"@,
            match binary_offset {
                Some(offset) => JsonTree::unsigned(offset),
                None => JsonTree::Null,
            },
        ).insert("stats"@, stats_tree(stats, elapsed)),
    )
}

/// The event of a matching or a context line.
pub open spec fn line_tree(
    kind: Seq<char>,
    path: Seq<char>,
    content: Seq<char>,
    line_number: usize,
    absolute_offset: usize,
    submatches: Seq<JsonTree>,
) -> JsonTree {
    event_tree(
        kind,
        Map::<Seq<char>, JsonTree>::empty().insert("path"@, text_tree(path)).insert(
            "lines"@,
            text_tree(content + "\n"@),
        ).insert("line_number"@, JsonTree::unsigned(line_number as u64)).insert(
            "absolute_offset"@,
            JsonTree::unsigned(absolute_offset as u64),
        ).insert("submatches"@, JsonTree::List(submatches)),
    )
}

/// A match within a line.
pub open spec fn submatch_tree(content: Seq<char>, span: (usize, usize)) -> JsonTree {
    JsonTree::Object(
        Map::<Seq<char>, JsonTree>::empty().insert(
            "match"@,
            text_tree(piece(content, span.0 as int, span.1 as int)),
        ).insert("start"@, JsonTree::unsigned(span.0 as u64)).insert(
            "end"@,
            JsonTree::unsigned(span.1 as u64),
        ),
    )
}

/// The event that closes the stream.
pub open spec fn summary_tree(stats: Stats, elapsed: Elapsed) -> JsonTree {
    event_tree(
        "summary"@,
        Map::<Seq<char>, JsonTree>::empty().insert("elapsed_total"@, duration_tree(elapsed)).insert(
            "stats"@,
            stats_tree(stats, elapsed),
        ),
    )
}

/// Whether a text holds the character that starts a color code.
pub open spec fn has_escape(s: Seq<char>) -> bool {
    s.contains('\x1b')
}

/// Texts without a color code make one without.
pub proof fn lemma_no_escape(a: Seq<char>, b: Seq<char>)
    ensures
        has_escape(a + b) <==> has_escape(a) || has_escape(b),
{
    if has_escape(a) {
        let i = choose|i: int| 0 <= i < a.len() && a[i] == '\x1b';
        assert((a + b)[i] == '\x1b');
    }
    if has_escape(b) {
        let i = choose|i: int| 0 <= i < b.len() && b[i] == '\x1b';
        assert((a + b)[a.len() + i] == '\x1b');
    }
}

/// A line of the JSON stream.
pub open spec fn event_line(event: JsonTree) -> Seq<char> {
    json_text(event) + "\n"@
}

impl Style {
    pub open spec fn path(self, file: Seq<char>) -> Seq<char> {
        printed_path(self.config, self.separator, file)
    }

    pub open spec fn is_json(self) -> bool {
        self.config.format == OutputFormat::Json
    }

    /// Whether a line can be printed with its matches: in JSON mode they are cut
    /// out of it, so there they have to lie between characters.
    pub open spec fn takes(self, content: Seq<char>, spans: Seq<(usize, usize)>) -> bool {
        self.is_json() ==> spans_fit(
            printed_content(self.config, content),
            printed_spans(self.config, content, spans),
        )
    }

    /// What stands in front of a line: the file, the line, the column and the
    /// offset, as far as they are asked for.
    pub open spec fn prefix(
        self,
        file: Seq<char>,
        line_number: usize,
        column: Option<usize>,
        offset: usize,
        is_match: bool,
    ) -> Seq<char> {
        let sep = if is_match {
            self.config.field_match_separator@
        } else {
            self.config.field_context_separator@
        };
        (if !self.use_heading && !self.config.no_filename {
            self.path(file) + sep
        } else {
            Seq::empty()
        }) + (if !self.config.no_line_number {
            (if self.use_color {
                "\x1b[32m"@ + decimal(line_number as nat) + "\x1b[0m"@
            } else {
                decimal(line_number as nat)
            }) + sep
        } else {
            Seq::empty()
        }) + (if self.config.column && is_match {
            decimal(
                match column {
                    Some(c) => c as nat,
                    None => 1,
                },
            ) + sep
        } else {
            Seq::empty()
        }) + (if self.config.byte_offset {
            decimal(offset as nat) + sep
        } else {
            Seq::empty()
        })
    }

    /// The state once the file that is open in JSON mode is closed.
    pub open spec fn file_closed(self, st: WriterState) -> WriterState {
        match st.current_file {
            None => st,
            Some(file) => {
                let stats = Stats {
                    searches_with_match: if st.file_stats.matched_lines > 0 {
                        1
                    } else {
                        st.file_stats.searches_with_match
                    },
                    ..st.file_stats
                };
                let line = event_line(
                    end_tree(
                        self.path(file),
                        st.binary_offset,
                        stats,
                        Elapsed::between(st.file_started, st.now),
                    ),
                );
                WriterState {
                    out: st.out + line,
                    current_file: None,
                    binary_offset: None,
                    total_stats: st.total_stats.sum(
                        Stats {
                            bytes_printed: plus(stats.bytes_printed, size_of(line) as u64),
                            ..stats
                        },
                    ),
                    file_stats: Stats::none(),
                    last_json_match_line: None,
                    ..st
                }
            },
        }
    }

    /// The state once a file is open in JSON mode.
    pub open spec fn file_opened(self, st: WriterState, file: Seq<char>) -> WriterState {
        if st.current_file == Some(file) {
            st
        } else {
            let st = self.file_closed(st);
            let line = event_line(begin_tree(self.path(file)));
            WriterState {
                out: st.out + line,
                file_stats: Stats {
                    searches: 1,
                    bytes_searched: st.pending_bytes_searched,
                    bytes_printed: plus(st.file_stats.bytes_printed, size_of(line) as u64),
                    ..st.file_stats
                },
                current_file: Some(file),
                file_started: st.now,
                last_printed: None,
                last_json_match_line: None,
                ..st
            }
        }
    }

    /// The state once the heading of a file is printed, where headings are.
    pub open spec fn headed(self, st: WriterState, file: Seq<char>) -> WriterState {
        if !self.use_heading || st.current_file == Some(file) {
            st
        } else {
            WriterState {
                out: st.out + (if st.current_file is Some {
                    "\n"@
                } else {
                    Seq::empty()
                }) + (if self.use_color {
                    "\x1b[35m"@ + self.path(file) + "\x1b[0m"@
                } else {
                    self.path(file)
                }) + "\n"@,
                current_file: Some(file),
                last_printed: None,
                ..st
            }
        }
    }

    /// The state once the heading of a file is printed, where file names are.
    pub open spec fn titled(self, st: WriterState, file: Seq<char>) -> WriterState {
        if self.config.no_filename {
            st
        } else {
            self.headed(st, file)
        }
    }

    /// The state once a line is handed on, where every line is.
    pub open spec fn line_done(self, st: WriterState) -> WriterState {
        WriterState { flush_due: st.flush_due || self.config.line_buffered, ..st }
    }

    /// The state once an event has been written.
    pub open spec fn event_written(self, st: WriterState, event: JsonTree) -> WriterState {
        let line = event_line(event);
        WriterState {
            out: st.out + line,
            file_stats: Stats {
                bytes_printed: plus(st.file_stats.bytes_printed, size_of(line) as u64),
                ..st.file_stats
            },
            ..st
        }
    }

    /// The state once a context line is written.
    #[verifier::opaque]
    pub open spec fn context_written(self, st: WriterState, ctx: ContextView) -> WriterState {
        let content = printed_content(self.config, ctx.content);
        let last = Some((ctx.file, ctx.line_number));
        if self.is_json() {
            let st = self.file_opened(st, ctx.file);
            let event = line_tree(
                "context"@,
                self.path(ctx.file),
                content,
                ctx.line_number,
                ctx.absolute_offset,
                Seq::empty(),
            );
            WriterState { last_printed: last, ..self.event_written(st, event) }
        } else {
            let st = self.titled(st, ctx.file);
            let shown = if is_over_long(self.config, content, ctx.terminator_len) {
                clipped_text(self.config, content, false)
            } else {
                content
            };
            self.line_done(
                WriterState {
                    out: st.out + self.prefix(
                        ctx.file,
                        ctx.line_number,
                        None,
                        ctx.absolute_offset,
                        false,
                    ) + shown + "\n"@,
                    last_printed: last,
                    ..st
                },
            )
        }
    }

    /// One row of a match in the format that editors step through.
    pub open spec fn vimgrep_row(
        self,
        file: Seq<char>,
        line_number: usize,
        column: nat,
        rendered: Seq<char>,
    ) -> Seq<char> {
        self.path(file) + ":"@ + decimal(line_number as nat) + ":"@ + decimal(column) + ":"@
            + rendered + "\n"@
    }

    /// One row for each column.
    pub open spec fn vimgrep_rows(
        self,
        file: Seq<char>,
        line_number: usize,
        columns: Seq<usize>,
        rendered: Seq<char>,
    ) -> Seq<char>
        decreases columns.len(),
    {
        if columns.len() == 0 {
            Seq::empty()
        } else {
            self.vimgrep_rows(file, line_number, columns.drop_last(), rendered)
                + self.vimgrep_row(file, line_number, columns.last() as nat, rendered)
        }
    }

    /// The state once a match is written.
    #[verifier::opaque]
    pub open spec fn match_written(self, st: WriterState, m: MatchView) -> WriterState {
        let content = printed_content(self.config, m.content);
        let spans = printed_spans(self.config, m.content, m.spans);
        let written = match self.config.format {
            OutputFormat::Json => {
                let st = self.file_opened(st, m.file);
                let new_line = st.last_json_match_line != Some(m.line_number);
                let counted = WriterState {
                    file_stats: Stats {
                        matched_lines: if new_line {
                            plus(st.file_stats.matched_lines, 1)
                        } else {
                            st.file_stats.matched_lines
                        },
                        matches: plus(st.file_stats.matches, spans.len() as u64),
                        ..st.file_stats
                    },
                    last_json_match_line: Some(m.line_number),
                    ..st
                };
                let event = line_tree(
                    "match"@,
                    self.path(m.file),
                    content,
                    m.line_number,
                    m.absolute_offset,
                    spans.map_values(|span: (usize, usize)| submatch_tree(content, span)),
                );
                self.event_written(counted, event)
            },
            OutputFormat::Vimgrep => {
                let rendered = highlighted(self.use_color, content, spans);
                let rows = if m.columns.len() == 0 {
                    self.vimgrep_row(m.file, m.line_number, 1, rendered)
                } else {
                    self.vimgrep_rows(m.file, m.line_number, m.columns, rendered)
                };
                WriterState { out: st.out + rows, ..st }
            },
            OutputFormat::FilesOnly => st,
            OutputFormat::Count => st,
            _ => {
                let st = self.titled(st, m.file);
                let rendered = if is_over_long(self.config, content, m.terminator_len) {
                    clipped_text(self.config, content, true)
                } else {
                    highlighted(self.use_color, content, spans)
                };
                let column = if m.columns.len() > 0 {
                    Some(m.columns[0])
                } else {
                    None
                };
                WriterState {
                    out: st.out + self.prefix(
                        m.file,
                        m.line_number,
                        column,
                        m.absolute_offset,
                        true,
                    ) + rendered + "\n"@,
                    ..st
                }
            },
        };
        self.line_done(WriterState { last_printed: Some((m.file, m.line_number)), ..written })
    }

    /// The note that stands for the lines of a matching binary file.
    pub open spec fn binary_note(self, file: Seq<char>, offset: usize) -> Seq<char> {
        (if self.config.no_filename {
            Seq::empty()
        } else {
            self.path(file) + ": "@
        }) + "binary file matches (found \"\\0\" byte around offset "@ + decimal(offset as nat)
            + ")\n"@
    }

    /// The state once the name of a file is written.
    #[verifier::opaque]
    pub open spec fn file_written(self, st: WriterState, path: Seq<char>) -> WriterState {
        self.line_done(
            WriterState {
                out: st.out + self.path(path) + (if self.config.null {
                    "\0"@
                } else {
                    "\n"@
                }),
                ..st
            },
        )
    }

    /// The state once the number of matches in a file is written.
    #[verifier::opaque]
    pub open spec fn count_written(self, st: WriterState, file: Seq<char>, count: nat) -> WriterState {
        self.line_done(
            WriterState {
                out: st.out + (if self.config.no_filename {
                    Seq::empty()
                } else {
                    self.path(file) + self.config.field_match_separator@
                }) + decimal(count) + "\n"@,
                ..st
            },
        )
    }

    /// The state once a binary file is noted.
    #[verifier::opaque]
    pub open spec fn binary_noted(self, st: WriterState, file: Seq<char>, offset: usize) -> WriterState {
        if self.is_json() {
            WriterState { binary_offset: Some(offset as u64), ..self.file_opened(st, file) }
        } else {
            WriterState { out: st.out + self.binary_note(file, offset), ..st }
        }
    }

    /// The state once a separator is written, where one belongs in front of a
    /// line.
    #[verifier::opaque]
    pub open spec fn separated(self, st: WriterState, file: Seq<char>, line: usize) -> WriterState {
        if self.needs_separator(st, file, line) {
            WriterState {
                out: st.out + self.config.context_separator->0@ + "\n"@,
                ..st
            }
        } else {
            st
        }
    }

    /// Whether a separator belongs in front of a line.
    pub open spec fn needs_separator(self, st: WriterState, file: Seq<char>, line: usize) -> bool {
        &&& !self.is_json()
        &&& self.config.context
        &&& self.config.context_separator is Some
        &&& st.last_printed matches Some((last_file, last_line)) && ((last_file == file && line
            > last_line + 1) || (last_file != file && !self.use_heading))
    }

    /// The state at the end of one searched path.
    pub open spec fn flushed(self, st: WriterState) -> WriterState {
        let st = if self.is_json() {
            self.file_closed(st)
        } else {
            st
        };
        WriterState { flush_due: true, ..st }
    }

    /// The state at the end of the whole invocation.
    pub open spec fn finished(self, st: WriterState) -> WriterState {
        if self.is_json() {
            let st = self.file_closed(st);
            let totals = Stats {
                searches: st.all_searches,
                bytes_searched: st.all_bytes_searched,
                ..st.total_stats
            };
            let elapsed = Elapsed::between(st.started, st.now);
            WriterState {
                out: st.out + event_line(summary_tree(totals, elapsed)),
                total_stats: totals,
                flush_due: true,
                ..st
            }
        } else {
            WriterState { flush_due: true, ..st }
        }
    }
}

fn event_json(kind: &str, data: Json) -> (r: Json)
    requires
        data@ is Object,
    ensures
        r@ == event_tree(kind@, data@->Object_0),
{
    Json::object().put("type", Json::text(kind)).put("data", data)
}

fn text_json(text: String) -> (r: Json)
    ensures
        r@ == text_tree(text@),
{
    Json::object().put("text", Json::Text(text))
}

fn line_json(
    kind: &str,
    path: String,
    content: &str,
    line_number: usize,
    absolute_offset: usize,
    submatches: Vec<Json>,
) -> (r: Json)
    ensures
        r@ == line_tree(
            kind@,
            path@,
            content@,
            line_number,
            absolute_offset,
            trees(submatches@),
        ),
{
    let mut line = owned(content);
    add_text(&mut line, "\n");
    let data = Json::object().put("path", text_json(path)).put("lines", text_json(line)).put(
        "line_number",
        Json::unsigned(line_number as u64),
    ).put("absolute_offset", Json::unsigned(absolute_offset as u64)).put(
        "submatches",
        Json::List(submatches),
    );
    event_json(kind, data)
}

/// The matches within a line as data.
fn submatches_json(content: &str, spans: &Vec<(usize, usize)>) -> (r: Vec<Json>)
    requires
        spans_fit(content@, spans@),
    ensures
        trees(r@) == spans@.map_values(|span: (usize, usize)| submatch_tree(content@, span)),
{
    let mut out: Vec<Json> = Vec::new();
    let ghost f = |span: (usize, usize)| submatch_tree(content@, span);
    let mut i: usize = 0;
    assert(trees(out@) =~= spans@.take(0).map_values(f));
    while i < spans.len()
        invariant
            i <= spans@.len(),
            spans_fit(content@, spans@),
            f == (|span: (usize, usize)| submatch_tree(content@, span)),
            trees(out@) == spans@.take(i as int).map_values(f),
        decreases spans@.len() - i,
    {
        let (start, end) = spans[i];
        assert(spans@[i as int] == (start, end));
        let item = Json::object().put(
            "match",
            text_json(owned(slice(content, start, end))),
        ).put("start", Json::unsigned(start as u64)).put("end", Json::unsigned(end as u64));
        proof {
            lemma_trees_push(out@, item);
            assert(spans@.take(i + 1).map_values(f) =~= spans@.take(i as int).map_values(f).push(
                item@,
            ));
        }
        out.push(item);
        i += 1;
    }
    assert(spans@.take(spans@.len() as int) =~= spans@);
    out
}

impl OutputWriter {
    /// What does not change while the writer works.
    pub closed spec fn style(self) -> Style {
        Style {
            config: self.config,
            use_color: self.use_color,
            use_heading: self.use_heading,
            separator: self.separator,
        }
    }

    /// Its clock readings are lengths of time.
    pub open spec fn wf(self) -> bool {
        self@.now.wf() && self@.started.wf() && self@.file_started.wf()
    }

    /// A writer for the standard output, which is a terminal or not.
    pub fn new(config: OutputConfig, is_tty: bool) -> (r: OutputWriter)
        ensures
            r.wf(),
            r@ == new_state(),
            r.style() == new_style(config, is_tty, r.style().separator),
            r.style().separator == '/' || r.style().separator == '\\',
    {
        OutputWriter::build(config, is_tty)
    }

    /// A writer whose output is consumed in the process. It is never a
    /// terminal.
    pub fn with_sink(config: OutputConfig) -> (r: OutputWriter)
        ensures
            r.wf(),
            r@ == new_state(),
            r.style() == new_style(config, false, r.style().separator),
            r.style().separator == '/' || r.style().separator == '\\',
            config.color == ColorMode::Auto ==> !r.style().use_color,
            config.heading is None ==> !r.style().use_heading,
    {
        OutputWriter::build(config, false)
    }

    fn build(config: OutputConfig, is_tty: bool) -> (r: OutputWriter)
        ensures
            r.wf(),
            r@ == new_state(),
            r.style() == new_style(config, is_tty, r.style().separator),
            r.style().separator == '/' || r.style().separator == '\\',
    {
        let use_color = config.color.is_enabled(is_tty);
        let use_heading = match config.heading {
            Some(h) => h,
            None => is_tty && config.format != OutputFormat::Flat && config.format
                != OutputFormat::Vimgrep,
        };
        let separator = main_separator();
        let out = String::new();
        OutputWriter {
            config,
            out,
            flush_due: false,
            current_file: None,
            use_color,
            use_heading,
            separator,
            last_printed_line: None,
            now: Elapsed::zero(),
            started: Elapsed::zero(),
            file_started: Elapsed::zero(),
            file_stats: Stats::zero(),
            last_json_match_line: None,
            total_stats: Stats::zero(),
            pending_bytes_searched: 0,
            current_binary_offset: None,
            all_bytes_searched: 0,
            all_searches: 0,
            total_matches: 0,
            total_matched_lines: 0,
        }
    }

    /// Sets the time of the clock that times are measured by, counted from
    /// when the writer was made.
    pub fn set_time(&mut self, now: Elapsed)
        requires
            old(self).wf(),
            now.wf(),
        ensures
            final(self).wf(),
            final(self).style() == old(self).style(),
            final(self)@ == (WriterState { now, ..old(self)@ }),
    {
        self.now = now;
    }

    /// Takes what has been rendered, and whether it is to be handed on at
    /// once.
    pub fn take_output(&mut self) -> (r: (String, bool))
        requires
            old(self).wf(),
        ensures
            final(self).wf(),
            final(self).style() == old(self).style(),
            r.0@ == old(self)@.out,
            r.1 == old(self)@.flush_due,
            final(self)@ == (WriterState { out: Seq::empty(), flush_due: false, ..old(self)@ }),
    {
        let text = self.out.clone();
        let due = self.flush_due;
        self.out = String::new();
        self.flush_due = false;
        assert(self@.out =~= Seq::<char>::empty());
        (text, due)
    }

    /// The numbers of matches and of matching lines.
    pub fn match_totals(&self) -> (r: (u64, u64))
        ensures
            r == (self@.total_matches, self@.total_matched_lines),
    {
        (self.total_matches, self.total_matched_lines)
    }

    /// Text totals are per search root; JSON totals still span the invocation.
    pub fn reset_match_totals(&mut self)
        requires
            old(self).wf(),
        ensures
            final(self).wf(),
            final(self).style() == old(self).style(),
            final(self)@ == (WriterState {
                total_matches: 0,
                total_matched_lines: 0,
                ..old(self)@
            }),
    {
        self.total_matches = 0;
        self.total_matched_lines = 0;
    }

    /// Adds to the numbers of matches and of matching lines.
    pub fn note_matches(&mut self, matches: u64, matched_lines: u64)
        requires
            old(self).wf(),
        ensures
            final(self).wf(),
            final(self).style() == old(self).style(),
            final(self)@ == (WriterState {
                total_matches: plus(old(self)@.total_matches, matches),
                total_matched_lines: plus(old(self)@.total_matched_lines, matched_lines),
                ..old(self)@
            }),
    {
        self.total_matches = self.total_matches.wrapping_add(matches);
        self.total_matched_lines = self.total_matched_lines.wrapping_add(matched_lines);
    }

    /// Whether the output is a JSON stream.
    pub fn is_json(&self) -> (r: bool)
        ensures
            r == self.style().is_json(),
    {
        self.config.format == OutputFormat::Json
    }

    /// Switches to the path spelling of the next search argument. One writer
    /// spans the whole invocation, but each argument is echoed as typed.
    pub fn set_path_display(&mut self, path_display: PathDisplay)
        requires
            old(self).wf(),
        ensures
            final(self).wf(),
            final(self)@ == old(self)@,
            final(self).style() == (Style {
                config: OutputConfig { path_display, ..old(self).style().config },
                ..old(self).style()
            }),
    {
        self.config.path_display = path_display;
    }

    /// Records that a file of `bytes` length is about to be searched.
    pub fn note_bytes_searched(&mut self, bytes: u64)
        requires
            old(self).wf(),
        ensures
            final(self).wf(),
            final(self).style() == old(self).style(),
            final(self)@ == (WriterState {
                pending_bytes_searched: bytes,
                all_bytes_searched: plus(old(self)@.all_bytes_searched, bytes),
                all_searches: plus(old(self)@.all_searches, 1),
                ..old(self)@
            }),
    {
        self.pending_bytes_searched = bytes;
        self.all_bytes_searched = self.all_bytes_searched.wrapping_add(bytes);
        self.all_searches = self.all_searches.wrapping_add(1);
    }

    fn display_path(&self, file: &str) -> (r: String)
        ensures
            r@ == self.style().path(file@),
    {
        let joined = match &self.config.path_display {
            PathDisplay::Exact(p) => p.clone(),
            PathDisplay::Prefix(p) => {
                let mut out = p.clone();
                let rest = native_separators(file, self.separator);
                add_text(&mut out, rest.as_str());
                out
            },
            PathDisplay::Bare => native_separators(file, self.separator),
        };
        match &self.config.path_separator {
            Some(sep) => replace_separators(joined.as_str(), sep.as_str()),
            None => joined,
        }
    }

    fn is_current(&self, file: &str) -> (r: bool)
        ensures
            r == (self@.current_file == Some(file@)),
    {
        match &self.current_file {
            Some(current) => same(current.as_str(), file),
            None => false,
        }
    }

    /// Writes an event; its length in bytes.
    fn push_event(&mut self, event: &Json) -> (n: u64)
        requires
            old(self).wf(),
        ensures
            final(self).wf(),
            final(self).style() == old(self).style(),
            n == size_of(event_line(event@)) as u64,
            !has_escape(event_line(event@)),
            final(self)@ == (WriterState {
                out: old(self)@.out + event_line(event@),
                ..old(self)@
            }),
    {
        let mut line = print(event);
        proof {
            reveal_strlit("\n");
            lemma_no_escape(line@, "\n"@);
            assert(!has_escape(line@)) by {
                if has_escape(line@) {
                    let i = choose|i: int| 0 <= i < line@.len() && line@[i] == '\x1b';
                    assert(line@[i] as u32 >= 32);
                }
            }
        }
        add_text(&mut line, "\n");
        add_text(&mut self.out, line.as_str());
        byte_len(line.as_str()) as u64
    }

    /// Closes the file that is open in JSON mode.
    fn finish_json_file(&mut self)
        requires
            old(self).wf(),
        ensures
            final(self).wf(),
            final(self).style() == old(self).style(),
            final(self)@ == old(self).style().file_closed(old(self)@),
            !has_escape(old(self)@.out) ==> !has_escape(final(self)@.out),
    {
        let path = match &self.current_file {
            Some(file) => self.display_path(file.as_str()),
            None => return,
        };
        if self.file_stats.matched_lines > 0 {
            self.file_stats.searches_with_match = 1;
        }
        let offset = match self.current_binary_offset {
            Some(offset) => Json::unsigned(offset),
            None => Json::Null,
        };
        let elapsed = self.now.since(self.file_started);
        let data = Json::object().put("path", text_json(path)).put("binary_offset", offset).put(
            "stats",
            self.file_stats.to_json(elapsed),
        );
        let event = event_json("end", data);
        let ghost before = self@.out;
        let n: u64 = self.push_event(&event);
        proof {
            lemma_no_escape(before, event_line(event@));
        }
        self.file_stats.bytes_printed = self.file_stats.bytes_printed.wrapping_add(n);
        self.total_stats = self.total_stats.added(self.file_stats);
        self.file_stats = Stats::zero();
        self.current_file = None;
        self.current_binary_offset = None;
        self.last_json_match_line = None;
    }

    /// Opens a file in JSON mode, closing the one before it.
    fn ensure_json_begin(&mut self, file: &str)
        requires
            old(self).wf(),
        ensures
            final(self).wf(),
            final(self).style() == old(self).style(),
            final(self)@ == old(self).style().file_opened(old(self)@, file@),
            !has_escape(old(self)@.out) ==> !has_escape(final(self)@.out),
    {
        if self.is_current(file) {
            return;
        }
        self.finish_json_file();
        let path = self.display_path(file);
        let event = event_json("begin", Json::object().put("path", text_json(path)));
        let ghost before = self@.out;
        let n: u64 = self.push_event(&event);
        proof {
            lemma_no_escape(before, event_line(event@));
        }
        self.file_stats.searches = 1;
        self.file_stats.bytes_searched = self.pending_bytes_searched;
        self.file_stats.bytes_printed = self.file_stats.bytes_printed.wrapping_add(n);
        self.current_file = Some(owned(file));
        self.file_started = self.now;
        self.last_printed_line = None;
        self.last_json_match_line = None;
    }

    /// Reports that a matching file was suppressed because it looks binary. In
    /// JSON mode there is no note: the offset goes into the `end` event.
    pub fn write_binary_note(&mut self, file: &str, offset: usize)
        requires
            old(self).wf(),
        ensures
            final(self).wf(),
            final(self).style() == old(self).style(),
            final(self)@ == old(self).style().binary_noted(old(self)@, file@, offset),
            old(self).style().is_json() && !has_escape(old(self)@.out) ==> !has_escape(
                final(self)@.out,
            ),
    {
        proof {
            reveal(Style::binary_noted);
        }
        if self.is_json() {
            self.ensure_json_begin(file);
            self.current_binary_offset = Some(offset as u64);
            return;
        }
        let mut note = String::new();
        if !self.config.no_filename {
            note = self.display_path(file);
            add_text(&mut note, ": ");
        }
        add_text(&mut note, "binary file matches (found \"\\0\" byte around offset ");
        add_number(&mut note, offset as u64);
        add_text(&mut note, ")\n");
        assert(note@ =~= self.style().binary_note(file@, offset));
        add_text(&mut self.out, note.as_str());
    }

    /// Writes a separator where there is a gap between context blocks: between
    /// the lines of one file, or between two files that have no heading.
    pub fn write_context_separator(&mut self, file: &str, line_num: usize)
        requires
            old(self).wf(),
        ensures
            final(self).wf(),
            final(self).style() == old(self).style(),
            final(self)@ == old(self).style().separated(old(self)@, file@, line_num),
    {
        proof {
            reveal(Style::separated);
        }
        if self.is_json() || !self.config.context {
            return;
        }
        let gap = match &self.last_printed_line {
            Some((last_file, last_line)) => if same(last_file.as_str(), file) {
                line_num > *last_line && line_num - *last_line > 1
            } else {
                !self.use_heading
            },
            None => false,
        };
        if let Some(sep) = &self.config.context_separator {
            if gap {
                add_text(&mut self.out, sep.as_str());
                add_text(&mut self.out, "\n");
            }
        }
    }

    fn field_prefix(
        &self,
        file: &str,
        line_number: usize,
        column: Option<usize>,
        offset: usize,
        is_match: bool,
    ) -> (r: String)
        ensures
            r@ == self.style().prefix(file@, line_number, column, offset, is_match),
    {
        let sep = if is_match {
            self.config.field_match_separator.as_str()
        } else {
            self.config.field_context_separator.as_str()
        };
        let mut out = String::new();
        if !self.use_heading && !self.config.no_filename {
            out = self.display_path(file);
            add_text(&mut out, sep);
        }
        let mut line = String::new();
        if !self.config.no_line_number {
            if self.use_color {
                line = owned("\x1b[32m");
                add_number(&mut line, line_number as u64);
                add_text(&mut line, "\x1b[0m");
            } else {
                line = number(line_number as u64);
            }
            add_text(&mut line, sep);
        }
        add_text(&mut out, line.as_str());
        let mut place = String::new();
        if self.config.column && is_match {
            let c: usize = match column {
                Some(c) => c,
                None => 1,
            };
            place = number(c as u64);
            add_text(&mut place, sep);
        }
        add_text(&mut out, place.as_str());
        let mut start = String::new();
        if self.config.byte_offset {
            start = number(offset as u64);
            add_text(&mut start, sep);
        }
        add_text(&mut out, start.as_str());
        out
    }

    fn maybe_flush(&mut self)
        requires
            old(self).wf(),
        ensures
            final(self).wf(),
            final(self).style() == old(self).style(),
            final(self)@ == old(self).style().line_done(old(self)@),
    {
        if self.config.line_buffered {
            self.flush_due = true;
        }
    }

    fn ensure_heading(&mut self, file: &str)
        requires
            old(self).wf(),
        ensures
            final(self).wf(),
            final(self).style() == old(self).style(),
            final(self)@ == old(self).style().headed(old(self)@, file@),
    {
        if !self.use_heading || self.is_current(file) {
            return;
        }
        let ghost start = self@.out;
        let mut text = String::new();
        if self.current_file.is_some() {
            text = owned("\n");
        }
        let shown = self.display_path(file);
        let mut title = String::new();
        if self.use_color {
            title = owned("\x1b[35m");
            add_text(&mut title, shown.as_str());
            add_text(&mut title, "\x1b[0m");
        } else {
            title = shown;
        }
        add_text(&mut self.out, text.as_str());
        add_text(&mut self.out, title.as_str());
        add_text(&mut self.out, "\n");
        self.current_file = Some(owned(file));
        self.last_printed_line = None;
    }

    /// Writes a context (non-matching) line.
    pub fn write_context_line(&mut self, ctx: &ContextLine)
        requires
            old(self).wf(),
        ensures
            final(self).wf(),
            final(self).style() == old(self).style(),
            final(self)@ == old(self).style().context_written(old(self)@, ctx@),
            old(self).style().is_json() && !has_escape(old(self)@.out) ==> !has_escape(
                final(self)@.out,
            ),
    {
        proof {
            reveal(Style::context_written);
        }
        let none: Vec<(usize, usize)> = Vec::new();
        let (content, _spans) = trim_adjust(&self.config, ctx.content.as_str(), &none);
        if self.is_json() {
            self.ensure_json_begin(ctx.file.as_str());
            let path = self.display_path(ctx.file.as_str());
            let submatches: Vec<Json> = Vec::new();
            assert(trees(submatches@) =~= Seq::<JsonTree>::empty());
            let event = line_json(
                "context",
                path,
                content.as_str(),
                ctx.line_number,
                ctx.absolute_offset,
                submatches,
            );
            let ghost before = self@.out;
            let n: u64 = self.push_event(&event);
            proof {
                lemma_no_escape(before, event_line(event@));
            }
            self.file_stats.bytes_printed = self.file_stats.bytes_printed.wrapping_add(n);
            self.last_printed_line = Some((ctx.file.clone(), ctx.line_number));
            return;
        }
        if !self.config.no_filename {
            self.ensure_heading(ctx.file.as_str());
        }
        let shown = match apply_max_columns(
            &self.config,
            content.as_str(),
            ctx.terminator_len,
            false,
        ) {
            Some(clipped) => clipped,
            None => content,
        };
        let prefix = self.field_prefix(
            ctx.file.as_str(),
            ctx.line_number,
            None,
            ctx.absolute_offset,
            false,
        );
        add_text(&mut self.out, prefix.as_str());
        add_text(&mut self.out, shown.as_str());
        add_text(&mut self.out, "\n");
        self.last_printed_line = Some((ctx.file.clone(), ctx.line_number));
        self.maybe_flush();
    }

    fn write_line_match(&mut self, m: &Match, content: &str, spans: &Vec<(usize, usize)>)
        requires
            old(self).wf(),
            old(self).style().config.format == OutputFormat::Heading
                || old(self).style().config.format == OutputFormat::Flat,
            content@ == printed_content(old(self).style().config, m.content@),
            spans@ == printed_spans(old(self).style().config, m.content@, m.spans@),
        ensures
            final(self).wf(),
            final(self).style() == old(self).style(),
            old(self).style().line_done(
                WriterState { last_printed: Some((m.file@, m.line_number)), ..final(self)@ },
            ) == old(self).style().match_written(old(self)@, m@),
    {
        proof {
            reveal(Style::match_written);
        }
        if !self.config.no_filename {
            self.ensure_heading(m.file.as_str());
        }
        let rendered = match apply_max_columns(&self.config, content, m.terminator_len, true) {
            Some(clipped) => clipped,
            None => highlight(self.use_color, content, spans),
        };
        let column = if m.columns.len() > 0 {
            Some(m.columns[0])
        } else {
            None
        };
        let prefix = self.field_prefix(
            m.file.as_str(),
            m.line_number,
            column,
            m.absolute_offset,
            true,
        );
        add_text(&mut self.out, prefix.as_str());
        add_text(&mut self.out, rendered.as_str());
        add_text(&mut self.out, "\n");
    }

    fn vimgrep_row_text(&self, file: &str, line_number: usize, column: usize, rendered: &str) -> (r:
        String)
        ensures
            r@ == self.style().vimgrep_row(file@, line_number, column as nat, rendered@),
    {
        let mut row = self.display_path(file);
        add_text(&mut row, ":");
        add_number(&mut row, line_number as u64);
        add_text(&mut row, ":");
        add_number(&mut row, column as u64);
        add_text(&mut row, ":");
        add_text(&mut row, rendered);
        add_text(&mut row, "\n");
        row
    }

    fn write_vimgrep_match(&mut self, m: &Match, content: &str, spans: &Vec<(usize, usize)>)
        requires
            old(self).wf(),
            old(self).style().config.format == OutputFormat::Vimgrep,
            content@ == printed_content(old(self).style().config, m.content@),
            spans@ == printed_spans(old(self).style().config, m.content@, m.spans@),
        ensures
            final(self).wf(),
            final(self).style() == old(self).style(),
            old(self).style().line_done(
                WriterState { last_printed: Some((m.file@, m.line_number)), ..final(self)@ },
            ) == old(self).style().match_written(old(self)@, m@),
    {
        proof {
            reveal(Style::match_written);
        }
        let rendered = highlight(self.use_color, content, spans);
        if m.columns.len() == 0 {
            let row = self.vimgrep_row_text(
                m.file.as_str(),
                m.line_number,
                1,
                rendered.as_str(),
            );
            add_text(&mut self.out, row.as_str());
            return;
        }
        let mut rows = String::new();
        let mut i: usize = 0;
        let ghost style = self.style();
        assert(m.columns@.take(0) =~= Seq::<usize>::empty());
        while i < m.columns.len()
            invariant
                i <= m.columns@.len(),
                self.style() == style,
                rows@ == style.vimgrep_rows(
                    m.file@,
                    m.line_number,
                    m.columns@.take(i as int),
                    rendered@,
                ),
            decreases m.columns@.len() - i,
        {
            assert(m.columns@.take(i + 1).drop_last() =~= m.columns@.take(i as int));
            assert(m.columns@.take(i + 1).last() == m.columns@[i as int]);
            let row = self.vimgrep_row_text(
                m.file.as_str(),
                m.line_number,
                m.columns[i],
                rendered.as_str(),
            );
            add_text(&mut rows, row.as_str());
            i += 1;
        }
        assert(m.columns@.take(m.columns@.len() as int) =~= m.columns@);
        add_text(&mut self.out, rows.as_str());
    }

    fn write_json_match(&mut self, m: &Match, content: &str, spans: &Vec<(usize, usize)>)
        requires
            old(self).wf(),
            old(self).style().is_json(),
            content@ == printed_content(old(self).style().config, m.content@),
            spans@ == printed_spans(old(self).style().config, m.content@, m.spans@),
            spans_fit(content@, spans@),
        ensures
            final(self).wf(),
            final(self).style() == old(self).style(),
            old(self).style().line_done(
                WriterState { last_printed: Some((m.file@, m.line_number)), ..final(self)@ },
            ) == old(self).style().match_written(old(self)@, m@),
            !has_escape(old(self)@.out) ==> !has_escape(final(self)@.out),
    {
        proof {
            reveal(Style::match_written);
        }
        self.ensure_json_begin(m.file.as_str());
        let submatches = submatches_json(content, spans);
        let again = match self.last_json_match_line {
            Some(line) => line == m.line_number,
            None => false,
        };
        if !again {
            self.file_stats.matched_lines = self.file_stats.matched_lines.wrapping_add(1);
            self.last_json_match_line = Some(m.line_number);
        }
        self.file_stats.matches = self.file_stats.matches.wrapping_add(spans.len() as u64);
        let path = self.display_path(m.file.as_str());
        let event = line_json(
            "match",
            path,
            content,
            m.line_number,
            m.absolute_offset,
            submatches,
        );
        let ghost before = self@.out;
        let n: u64 = self.push_event(&event);
        proof {
            lemma_no_escape(before, event_line(event@));
        }
        self.file_stats.bytes_printed = self.file_stats.bytes_printed.wrapping_add(n);
    }

    /// Writes a match. In JSON mode the spans must cut the line between
    /// characters.
    pub fn write_match(&mut self, m: &Match)
        requires
            old(self).wf(),
            old(self).style().takes(m.content@, m.spans@),
        ensures
            final(self).wf(),
            final(self).style() == old(self).style(),
            final(self)@ == old(self).style().match_written(old(self)@, m@),
            old(self).style().is_json() && !has_escape(old(self)@.out) ==> !has_escape(
                final(self)@.out,
            ),
    {
        proof {
            reveal(Style::match_written);
        }
        let (content, spans) = trim_adjust(&self.config, m.content.as_str(), &m.spans);
        match self.config.format {
            OutputFormat::Heading | OutputFormat::Flat => {
                self.write_line_match(m, content.as_str(), &spans);
            },
            OutputFormat::Vimgrep => {
                self.write_vimgrep_match(m, content.as_str(), &spans);
            },
            OutputFormat::Json => {
                self.write_json_match(m, content.as_str(), &spans);
            },
            OutputFormat::FilesOnly | OutputFormat::Count => {},
        }
        self.last_printed_line = Some((m.file.clone(), m.line_number));
        self.maybe_flush();
    }

    /// Writes the name of a file.
    pub fn write_file(&mut self, path: &str)
        requires
            old(self).wf(),
        ensures
            final(self).wf(),
            final(self).style() == old(self).style(),
            final(self)@ == old(self).style().file_written(old(self)@, path@),
    {
        proof {
            reveal(Style::file_written);
        }
        let shown = self.display_path(path);
        add_text(&mut self.out, shown.as_str());
        add_text(
            &mut self.out,
            if self.config.null {
                "\0"
            } else {
                "\n"
            },
        );
        self.maybe_flush();
    }

    /// Writes the number of matches in a file.
    pub fn write_count(&mut self, file: &str, count: usize)
        requires
            old(self).wf(),
        ensures
            final(self).wf(),
            final(self).style() == old(self).style(),
            final(self)@ == old(self).style().count_written(old(self)@, file@, count as nat),
    {
        proof {
            reveal(Style::count_written);
        }
        let mut shown = String::new();
        if !self.config.no_filename {
            shown = self.display_path(file);
            add_text(&mut shown, self.config.field_match_separator.as_str());
        }
        add_text(&mut self.out, shown.as_str());
        add_number(&mut self.out, count as u64);
        add_text(&mut self.out, "\n");
        self.maybe_flush();
    }

    /// Hands the output on, closing any file left open in JSON mode. Called
    /// once per searched path.
    pub fn flush(&mut self)
        requires
            old(self).wf(),
        ensures
            final(self).wf(),
            final(self).style() == old(self).style(),
            final(self)@ == old(self).style().flushed(old(self)@),
            old(self).style().is_json() && !has_escape(old(self)@.out) ==> !has_escape(
                final(self)@.out,
            ),
    {
        if self.is_json() {
            self.finish_json_file();
        }
        self.flush_due = true;
    }

    /// Ends the invocation with the single JSON `summary` event.
    pub fn finish(&mut self)
        requires
            old(self).wf(),
        ensures
            final(self).wf(),
            final(self).style() == old(self).style(),
            final(self)@ == old(self).style().finished(old(self)@),
            old(self).style().is_json() && !has_escape(old(self)@.out) ==> !has_escape(
                final(self)@.out,
            ),
    {
        if self.is_json() {
            self.finish_json_file();
            let elapsed = self.now.since(self.started);
            self.total_stats.searches = self.all_searches;
            self.total_stats.bytes_searched = self.all_bytes_searched;
            let data = Json::object().put("elapsed_total", duration_json(elapsed)).put(
                "stats",
                self.total_stats.to_json(elapsed),
            );
            let event = event_json("summary", data);
            let ghost before = self@.out;
            let _ = self.push_event(&event);
            proof {
                lemma_no_escape(before, event_line(event@));
            }
        }
        self.flush_due = true;
    }
}

/// The state of a writer that has written nothing.
pub open spec fn new_state() -> WriterState {
    let zero = Elapsed { secs: 0, nanos: 0 };
    WriterState {
        out: Seq::empty(),
        flush_due: false,
        current_file: None,
        last_printed: None,
        now: zero,
        started: zero,
        file_started: zero,
        file_stats: Stats::none(),
        last_json_match_line: None,
        total_stats: Stats::none(),
        pending_bytes_searched: 0,
        binary_offset: None,
        all_bytes_searched: 0,
        all_searches: 0,
        total_matches: 0,
        total_matched_lines: 0,
    }
}

/// The style of a writer: color and headings follow the configuration, and
/// where it leaves them open, whether the output is a terminal.
pub open spec fn new_style(config: OutputConfig, is_tty: bool, separator: char) -> Style {
    Style {
        config,
        use_color: config.color.enabled(is_tty),
        use_heading: match config.heading {
            Some(h) => h,
            None => is_tty && config.format != OutputFormat::Flat && config.format
                != OutputFormat::Vimgrep,
        },
        separator,
    }
}

/// Whether one text is another with something behind it.
pub open spec fn extends(after: Seq<char>, before: Seq<char>) -> bool {
    crate::text::opens(after, before)
}

proof fn lemma_opening_extends(style: Style, st: WriterState, file: Seq<char>)
    ensures
        extends(style.file_closed(st).out, st.out),
        extends(style.file_opened(st, file).out, st.out),
        extends(style.titled(st, file).out, st.out),
{
    let closed = style.file_closed(st);
    let opened = style.file_opened(st, file);
    assert(st.out.take(st.out.len() as int) =~= st.out);
    assert(closed.out.take(st.out.len() as int) =~= st.out);
    assert(opened.out.take(st.out.len() as int) =~= st.out);
    assert(style.headed(st, file).out.take(st.out.len() as int) =~= st.out);
}

proof fn lemma_match_extends(style: Style, st: WriterState, m: MatchView)
    ensures
        extends(style.match_written(st, m).out, st.out),
{
    reveal(Style::match_written);
    lemma_opening_extends(style, st, m.file);
    assert(style.match_written(st, m).out.take(st.out.len() as int) =~= st.out);
}

proof fn lemma_context_extends(style: Style, st: WriterState, c: ContextView)
    ensures
        extends(style.context_written(st, c).out, st.out),
{
    reveal(Style::context_written);
    lemma_opening_extends(style, st, c.file);
    assert(style.context_written(st, c).out.take(st.out.len() as int) =~= st.out);
}

proof fn lemma_notes_extend(style: Style, st: WriterState, file: Seq<char>, n: usize)
    ensures
        extends(style.file_written(st, file).out, st.out),
        extends(style.count_written(st, file, n as nat).out, st.out),
        extends(style.binary_noted(st, file, n).out, st.out),
        extends(style.separated(st, file, n).out, st.out),
{
    reveal(Style::file_written);
    reveal(Style::count_written);
    reveal(Style::binary_noted);
    reveal(Style::separated);
    lemma_opening_extends(style, st, file);
    let k = st.out.len() as int;
    assert(style.file_written(st, file).out.take(k) =~= st.out);
    assert(style.count_written(st, file, n as nat).out.take(k) =~= st.out);
    assert(style.binary_noted(st, file, n).out.take(k) =~= st.out);
    assert(style.separated(st, file, n).out.take(k) =~= st.out);
}

/// What was written is never taken back: every call leaves the output as it
/// was, with something behind it or nothing.
pub proof fn law_output_only_grows(
    style: Style,
    st: WriterState,
    m: MatchView,
    c: ContextView,
    file: Seq<char>,
    n: usize,
)
    ensures
        extends(style.match_written(st, m).out, st.out),
        extends(style.context_written(st, c).out, st.out),
        extends(style.file_written(st, file).out, st.out),
        extends(style.count_written(st, file, n as nat).out, st.out),
        extends(style.binary_noted(st, file, n).out, st.out),
        extends(style.separated(st, file, n).out, st.out),
        extends(style.flushed(st).out, st.out),
        extends(style.finished(st).out, st.out),
{
    lemma_match_extends(style, st, m);
    lemma_context_extends(style, st, c);
    lemma_notes_extend(style, st, file, n);
    lemma_opening_extends(style, st, file);
    let k = st.out.len() as int;
    assert(style.flushed(st).out.take(k) =~= st.out);
    assert(style.finished(st).out.take(k) =~= st.out);
}

/// At the end of a searched path no file of a JSON stream is left open, and
/// ending it again writes nothing.
pub proof fn law_flushing_closes_once(style: Style, st: WriterState)
    requires
        style.is_json(),
    ensures
        style.flushed(st).current_file is None,
        style.flushed(style.flushed(st)) == style.flushed(st),
        style.finished(st).current_file is None,
{
}

proof fn lemma_unmarked(content: Seq<char>, spans: Seq<(usize, usize)>, pos: int)
    requires
        is_boundary(content, pos),
    ensures
        encode_utf8(marked_from(content, spans, pos, Seq::empty(), Seq::empty())) == encode_utf8(
            content,
        ).skip(pos),
    decreases spans.len(),
{
    let none = Seq::<char>::empty();
    let bytes = encode_utf8(content);
    let size = size_of(content) as int;
    lemma_ends_are_boundaries(content);
    if spans.len() == 0 {
        lemma_piece(content, pos, size);
        assert(bytes.subrange(pos, size) =~= bytes.skip(pos));
    } else {
        let s0 = floor_at(content, spans[0].0 as int);
        let start = if s0 > pos {
            s0
        } else {
            pos
        };
        let e0 = floor_at(content, spans[0].1 as int);
        let end = if e0 > start {
            e0
        } else {
            start
        };
        lemma_floor(content, spans[0].0 as int);
        lemma_floor(content, spans[0].1 as int);
        lemma_unmarked(content, spans.skip(1), end);
        let plain = piece(content, pos, start);
        let matched = if end > start {
            none + piece(content, start, end) + none
        } else {
            none
        };
        let tail = marked_from(content, spans.skip(1), end, none, none);
        lemma_piece(content, pos, start);
        if end > start {
            lemma_piece(content, start, end);
            assert(matched =~= piece(content, start, end));
        } else {
            encode_utf8_decode_utf8(none);
            assert(bytes.subrange(start, end) =~= encode_utf8(none));
        }
        lemma_encode_concat(plain, matched);
        lemma_encode_concat(plain + matched, tail);
        assert(bytes.subrange(pos, start) + bytes.subrange(start, end) + bytes.skip(end)
            =~= bytes.skip(pos));
    }
}

/// Colors are only added: without the codes a highlighted line is the line.
pub proof fn law_colors_leave_the_text_alone(content: Seq<char>, spans: Seq<(usize, usize)>)
    ensures
        marked_from(content, spans, 0, Seq::empty(), Seq::empty()) == content,
{
    lemma_ends_are_boundaries(content);
    lemma_unmarked(content, spans, 0);
    let bare = marked_from(content, spans, 0, Seq::empty(), Seq::empty());
    assert(encode_utf8(content).skip(0) =~= encode_utf8(content));
    encode_utf8_decode_utf8(bare);
    encode_utf8_decode_utf8(content);
}

} // verus!
