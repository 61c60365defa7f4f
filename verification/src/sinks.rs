//! What holds of output that is consumed in the process.
use crate::output::{
    clipped_text, extends, has_escape, highlighted, lemma_no_escape, new_style, printed_content,
    printed_spans, ColorMode, ContextView, MatchView, OutputConfig, OutputFormat, Style,
    WriterState,
};
use crate::slices::{floor_at, lemma_encode_concat, lemma_ends_are_boundaries, lemma_floor};
use crate::slices::{lemma_piece, piece, size_of};
use crate::text::{decimal, digit, is_space, trimmed, without_end, without_start};
use vstd::prelude::*;
use vstd::utf8::{encode_utf8, encode_utf8_decode_utf8};

verus! {

proof fn lemma_part_has_no_escape(s: Seq<char>, from: int, to: int)
    requires
        0 <= from <= to <= s.len(),
        !has_escape(s),
    ensures
        !has_escape(s.subrange(from, to)),
{
    let part = s.subrange(from, to);
    if has_escape(part) {
        let i = choose|i: int| 0 <= i < part.len() && part[i] == '\x1b';
        assert(s[from + i] == '\x1b');
    }
}

proof fn lemma_start_has_no_escape(s: Seq<char>, p: spec_fn(char) -> bool)
    requires
        !has_escape(s),
    ensures
        !has_escape(without_start(s, p)),
    decreases s.len(),
{
    if s.len() > 0 && p(s[0]) {
        lemma_part_has_no_escape(s, 1, s.len() as int);
        assert(s.skip(1) =~= s.subrange(1, s.len() as int));
        lemma_start_has_no_escape(s.skip(1), p);
    }
}

proof fn lemma_end_has_no_escape(s: Seq<char>, p: spec_fn(char) -> bool)
    requires
        !has_escape(s),
    ensures
        !has_escape(without_end(s, p)),
    decreases s.len(),
{
    if s.len() > 0 && p(s.last()) {
        lemma_part_has_no_escape(s, 0, s.len() - 1);
        assert(s.drop_last() =~= s.subrange(0, s.len() - 1));
        lemma_end_has_no_escape(s.drop_last(), p);
    }
}

proof fn lemma_content_has_no_escape(config: OutputConfig, s: Seq<char>)
    requires
        !has_escape(s),
    ensures
        !has_escape(printed_content(config, s)),
{
    let p = |c: char| is_space(c);
    lemma_start_has_no_escape(s, p);
    lemma_end_has_no_escape(without_start(s, p), p);
    assert(trimmed(s) == without_end(without_start(s, p), p));
}

proof fn lemma_number_has_no_escape(n: nat)
    ensures
        !has_escape(decimal(n)),
    decreases n,
{
    if n < 10 {
        assert(digit(n as int) != '\x1b');
    } else {
        lemma_number_has_no_escape(n / 10);
        let last = seq![digit((n % 10) as int)];
        lemma_no_escape(decimal(n / 10), last);
        assert(decimal(n) =~= decimal(n / 10) + last);
    }
}

/// A piece from the start of a text is a beginning of it.
proof fn lemma_head_has_no_escape(s: Seq<char>, end: int)
    requires
        crate::slices::is_boundary(s, end),
        0 <= end,
        !has_escape(s),
    ensures
        !has_escape(piece(s, 0, end)),
{
    let size = size_of(s) as int;
    lemma_ends_are_boundaries(s);
    let head = piece(s, 0, end);
    let tail = piece(s, end, size);
    lemma_piece(s, 0, end);
    lemma_piece(s, end, size);
    lemma_encode_concat(head, tail);
    assert(encode_utf8(s).subrange(0, end) + encode_utf8(s).subrange(end, size) =~= encode_utf8(s));
    encode_utf8_decode_utf8(head + tail);
    encode_utf8_decode_utf8(s);
    lemma_no_escape(head, tail);
}

proof fn lemma_note_has_no_escape()
    ensures
        !has_escape("\n"@),
        !has_escape(":"@),
        !has_escape(": "@),
        !has_escape("\0"@),
        !has_escape(")\n"@),
{
    reveal_strlit("\n");
    reveal_strlit(":");
    reveal_strlit(": ");
    reveal_strlit("\0");
    reveal_strlit(")\n");
}

proof fn lemma_long_notes_have_no_escape()
    ensures
        !has_escape(" [... omitted end of long line]"@),
        !has_escape("[Omitted long matching line]"@),
        !has_escape("[Omitted long context line]"@),
{
    reveal_strlit(" [... omitted end of long line]");
    reveal_strlit("[Omitted long matching line]");
    reveal_strlit("[Omitted long context line]");
}

proof fn lemma_binary_note_has_no_escape()
    ensures
        !has_escape("binary file matches (found \"\\0\" byte around offset "@),
{
    reveal_strlit("binary file matches (found \"\\0\" byte around offset ");
}

proof fn lemma_clipped_has_no_escape(config: OutputConfig, content: Seq<char>, is_match: bool)
    requires
        !has_escape(content),
        config.max_columns is Some,
    ensures
        !has_escape(clipped_text(config, content, is_match)),
{
    lemma_long_notes_have_no_escape();
    let at = config.max_columns->0 as int;
    lemma_floor(content, at);
    lemma_ends_are_boundaries(content);
    let end = floor_at(content, at);
    lemma_head_has_no_escape(content, end);
    lemma_no_escape(piece(content, 0, end), " [... omitted end of long line]"@);
}

/// Whether what stands between the fields of a line has no color code.
pub open spec fn plain_separators(config: OutputConfig) -> bool {
    &&& !has_escape(config.field_match_separator@)
    &&& !has_escape(config.field_context_separator@)
    &&& config.context_separator matches Some(s) ==> !has_escape(s@)
}

proof fn lemma_prefix_has_no_escape(
    style: Style,
    file: Seq<char>,
    line_number: usize,
    column: Option<usize>,
    offset: usize,
    is_match: bool,
)
    requires
        !style.use_color,
        plain_separators(style.config),
        !has_escape(style.path(file)),
    ensures
        !has_escape(style.prefix(file, line_number, column, offset, is_match)),
{
    let sep = if is_match {
        style.config.field_match_separator@
    } else {
        style.config.field_context_separator@
    };
    let none = Seq::<char>::empty();
    let a = if !style.use_heading && !style.config.no_filename {
        style.path(file) + sep
    } else {
        none
    };
    let b = if !style.config.no_line_number {
        decimal(line_number as nat) + sep
    } else {
        none
    };
    let shown = match column {
        Some(c) => c as nat,
        None => 1,
    };
    let c = if style.config.column && is_match {
        decimal(shown) + sep
    } else {
        none
    };
    let d = if style.config.byte_offset {
        decimal(offset as nat) + sep
    } else {
        none
    };
    lemma_no_escape(style.path(file), sep);
    lemma_number_has_no_escape(line_number as nat);
    lemma_no_escape(decimal(line_number as nat), sep);
    lemma_number_has_no_escape(shown);
    lemma_no_escape(decimal(shown), sep);
    lemma_number_has_no_escape(offset as nat);
    lemma_no_escape(decimal(offset as nat), sep);
    lemma_no_escape(a, b);
    lemma_no_escape(a + b, c);
    lemma_no_escape(a + b + c, d);
    assert(style.prefix(file, line_number, column, offset, is_match) == a + b + c + d);
}

proof fn lemma_line_has_no_escape(out: Seq<char>, prefix: Seq<char>, shown: Seq<char>)
    requires
        !has_escape(out),
        !has_escape(prefix),
        !has_escape(shown),
    ensures
        !has_escape(out + prefix + shown + "\n"@),
{
    lemma_note_has_no_escape();
    lemma_no_escape(out, prefix);
    lemma_no_escape(out + prefix, shown);
    lemma_no_escape(out + prefix + shown, "\n"@);
}

proof fn lemma_rows_have_no_escape(
    style: Style,
    file: Seq<char>,
    line_number: usize,
    columns: Seq<usize>,
    rendered: Seq<char>,
)
    requires
        !has_escape(style.path(file)),
        !has_escape(rendered),
    ensures
        !has_escape(style.vimgrep_row(file, line_number, 1, rendered)),
        !has_escape(style.vimgrep_rows(file, line_number, columns, rendered)),
    decreases columns.len(),
{
    lemma_row_has_no_escape(style, file, line_number, 1, rendered);
    if columns.len() > 0 {
        lemma_rows_have_no_escape(style, file, line_number, columns.drop_last(), rendered);
        lemma_row_has_no_escape(style, file, line_number, columns.last() as nat, rendered);
        lemma_no_escape(
            style.vimgrep_rows(file, line_number, columns.drop_last(), rendered),
            style.vimgrep_row(file, line_number, columns.last() as nat, rendered),
        );
    }
}

proof fn lemma_row_has_no_escape(
    style: Style,
    file: Seq<char>,
    line_number: usize,
    column: nat,
    rendered: Seq<char>,
)
    requires
        !has_escape(style.path(file)),
        !has_escape(rendered),
    ensures
        !has_escape(style.vimgrep_row(file, line_number, column, rendered)),
{
    lemma_note_has_no_escape();
    lemma_number_has_no_escape(line_number as nat);
    lemma_number_has_no_escape(column);
    let a = style.path(file);
    let b = a + ":"@;
    let c = b + decimal(line_number as nat);
    let d = c + ":"@;
    let e = d + decimal(column);
    let f = e + ":"@;
    lemma_no_escape(a, ":"@);
    lemma_no_escape(b, decimal(line_number as nat));
    lemma_no_escape(c, ":"@);
    lemma_no_escape(d, decimal(column));
    lemma_no_escape(e, ":"@);
    lemma_no_escape(f, rendered);
    lemma_no_escape(f + rendered, "\n"@);
}

/// A writer whose output is consumed in the process is never a terminal: where
/// color and headings are left open it uses neither.
pub proof fn law_sinks_have_no_colors_or_headings(config: OutputConfig, separator: char)
    requires
        config.color == ColorMode::Auto,
        config.heading is None,
    ensures
        !new_style(config, false, separator).use_color,
        !new_style(config, false, separator).use_heading,
{
}

/// Without colors no color code is written for a match, unless it is in the
/// line, the path or the separators.
pub proof fn law_plain_matches_have_no_color_codes(style: Style, st: WriterState, m: MatchView)
    requires
        !style.use_color,
        !style.use_heading,
        !style.is_json(),
        plain_separators(style.config),
        !has_escape(st.out),
        !has_escape(style.path(m.file)),
        !has_escape(m.content),
    ensures
        !has_escape(style.match_written(st, m).out),
{
    reveal(Style::match_written);
    let content = printed_content(style.config, m.content);
    let spans = printed_spans(style.config, m.content, m.spans);
    lemma_content_has_no_escape(style.config, m.content);
    assert(highlighted(style.use_color, content, spans) == content);
    match style.config.format {
        OutputFormat::Vimgrep => {
            lemma_rows_have_no_escape(style, m.file, m.line_number, m.columns, content);
            let row = style.vimgrep_row(m.file, m.line_number, 1, content);
            let rows = style.vimgrep_rows(m.file, m.line_number, m.columns, content);
            lemma_no_escape(st.out, row);
            lemma_no_escape(st.out, rows);
        },
        OutputFormat::FilesOnly => {},
        OutputFormat::Count => {},
        _ => {
            let shown = if crate::output::is_over_long(style.config, content, m.terminator_len) {
                lemma_clipped_has_no_escape(style.config, content, true);
                clipped_text(style.config, content, true)
            } else {
                content
            };
            let column = if m.columns.len() > 0 {
                Some(m.columns[0])
            } else {
                None
            };
            lemma_prefix_has_no_escape(
                style,
                m.file,
                m.line_number,
                column,
                m.absolute_offset,
                true,
            );
            let prefix = style.prefix(m.file, m.line_number, column, m.absolute_offset, true);
            lemma_line_has_no_escape(st.out, prefix, shown);
            assert(style.match_written(st, m).out == st.out + prefix + shown + "\n"@);
        },
    }
}

/// Without colors no color code is written for a context line, unless it is in
/// the line, the path or the separators.
pub proof fn law_plain_context_has_no_color_codes(style: Style, st: WriterState, c: ContextView)
    requires
        !style.use_color,
        !style.use_heading,
        !style.is_json(),
        plain_separators(style.config),
        !has_escape(st.out),
        !has_escape(style.path(c.file)),
        !has_escape(c.content),
    ensures
        !has_escape(style.context_written(st, c).out),
{
    reveal(Style::context_written);
    let content = printed_content(style.config, c.content);
    lemma_content_has_no_escape(style.config, c.content);
    let shown = if crate::output::is_over_long(style.config, content, c.terminator_len) {
        lemma_clipped_has_no_escape(style.config, content, false);
        clipped_text(style.config, content, false)
    } else {
        content
    };
    lemma_prefix_has_no_escape(style, c.file, c.line_number, None, c.absolute_offset, false);
    let prefix = style.prefix(c.file, c.line_number, None, c.absolute_offset, false);
    lemma_line_has_no_escape(st.out, prefix, shown);
    assert(style.context_written(st, c).out == st.out + prefix + shown + "\n"@);
}

/// Whatever the colors and the mode, names of files, counts and separators bring
/// no color code, unless it is in the path or the separators. Nor do notes of
/// binary files and the end of the output; where these are JSON, that is stated
/// of the calls that write.
pub proof fn law_names_and_notes_have_no_color_codes(
    style: Style,
    st: WriterState,
    file: Seq<char>,
    n: usize,
)
    requires
        plain_separators(style.config),
        !has_escape(st.out),
        !has_escape(style.path(file)),
    ensures
        !has_escape(style.file_written(st, file).out),
        !has_escape(style.count_written(st, file, n as nat).out),
        !has_escape(style.separated(st, file, n).out),
        !style.is_json() ==> {
            &&& !has_escape(style.binary_noted(st, file, n).out)
            &&& !has_escape(style.flushed(st).out)
            &&& !has_escape(style.finished(st).out)
        },
{
    lemma_names_have_no_escape(style, st, file, n);
    if !style.is_json() {
        lemma_noted_has_no_escape(style, st, file, n);
    }
}

proof fn lemma_names_have_no_escape(style: Style, st: WriterState, file: Seq<char>, n: usize)
    requires
        plain_separators(style.config),
        !has_escape(st.out),
        !has_escape(style.path(file)),
    ensures
        !has_escape(style.file_written(st, file).out),
        !has_escape(style.count_written(st, file, n as nat).out),
        !has_escape(style.separated(st, file, n).out),
{
    reveal(Style::file_written);
    reveal(Style::count_written);
    reveal(Style::separated);
    lemma_note_has_no_escape();
    lemma_number_has_no_escape(n as nat);
    let path = style.path(file);
    let end = if style.config.null {
        "\0"@
    } else {
        "\n"@
    };
    lemma_no_escape(st.out, path);
    lemma_no_escape(st.out + path, end);
    assert(style.file_written(st, file).out == st.out + path + end);
    let sep = style.config.field_match_separator@;
    let head = if style.config.no_filename {
        Seq::<char>::empty()
    } else {
        path + sep
    };
    lemma_no_escape(path, sep);
    lemma_no_escape(st.out, head);
    lemma_no_escape(st.out + head, decimal(n as nat));
    lemma_no_escape(st.out + head + decimal(n as nat), "\n"@);
    if let Some(between) = style.config.context_separator {
        lemma_no_escape(st.out, between@);
        lemma_no_escape(st.out + between@, "\n"@);
    }
}

proof fn lemma_noted_has_no_escape(style: Style, st: WriterState, file: Seq<char>, n: usize)
    requires
        !style.is_json(),
        !has_escape(st.out),
        !has_escape(style.path(file)),
    ensures
        !has_escape(style.binary_noted(st, file, n).out),
{
    reveal(Style::binary_noted);
    lemma_note_has_no_escape();
    lemma_binary_note_has_no_escape();
    lemma_number_has_no_escape(n as nat);
    let head = if style.config.no_filename {
        Seq::<char>::empty()
    } else {
        style.path(file) + ": "@
    };
    let words = "binary file matches (found \"\\0\" byte around offset "@;
    lemma_no_escape(style.path(file), ": "@);
    lemma_no_escape(head, words);
    lemma_no_escape(head + words, decimal(n as nat));
    lemma_no_escape(head + words + decimal(n as nat), ")\n"@);
    lemma_no_escape(st.out, style.binary_note(file, n));
}

/// Without headings every line of a match starts with its path, where names of
/// files are printed.
pub proof fn law_lines_without_headings_start_with_their_path(
    style: Style,
    st: WriterState,
    m: MatchView,
    c: ContextView,
)
    requires
        !style.use_heading,
        !style.config.no_filename,
        style.config.format == OutputFormat::Heading || style.config.format == OutputFormat::Flat,
    ensures
        extends(
            style.match_written(st, m).out,
            st.out + (style.path(m.file) + style.config.field_match_separator@),
        ),
        extends(
            style.context_written(st, c).out,
            st.out + (style.path(c.file) + style.config.field_context_separator@),
        ),
{
    lemma_match_starts_with_path(style, st, m);
    lemma_context_starts_with_path(style, st, c);
}

proof fn lemma_match_starts_with_path(style: Style, st: WriterState, m: MatchView)
    requires
        !style.use_heading,
        !style.config.no_filename,
        style.config.format == OutputFormat::Heading || style.config.format == OutputFormat::Flat,
    ensures
        extends(
            style.match_written(st, m).out,
            st.out + (style.path(m.file) + style.config.field_match_separator@),
        ),
{
    reveal(Style::match_written);
    let head = style.path(m.file) + style.config.field_match_separator@;
    assert(style.match_written(st, m).out.take((st.out + head).len() as int) =~= st.out + head);
}

proof fn lemma_context_starts_with_path(style: Style, st: WriterState, c: ContextView)
    requires
        !style.use_heading,
        !style.config.no_filename,
        style.config.format == OutputFormat::Heading || style.config.format == OutputFormat::Flat,
    ensures
        extends(
            style.context_written(st, c).out,
            st.out + (style.path(c.file) + style.config.field_context_separator@),
        ),
{
    reveal(Style::context_written);
    let head = style.path(c.file) + style.config.field_context_separator@;
    assert(style.context_written(st, c).out.take((st.out + head).len() as int) =~= st.out + head);
}

} // verus!
