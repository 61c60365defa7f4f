//! What is printed: how a line, a name, a count and a note look, and which of
//! them a searched file brings.
use crate::file_search::{file_searched, file_selected, FileRead, Found};
use crate::options::SearchOptionsView;
use crate::output::{
    ContextView, MatchView, OutputConfig, OutputFormat, PathDisplay, Style, WriterState,
};
use crate::text::decimal;
use vstd::prelude::*;

verus! {

/// A field of a line: a text and the separator behind it, where it is shown.
pub open spec fn field(shown: bool, text: Seq<char>, separator: Seq<char>) -> Seq<char> {
    if shown {
        text + separator
    } else {
        Seq::empty()
    }
}

/// What stands above the first line of a file: nothing without headings, and
/// else its path, behind an empty line where another file was printed before.
pub open spec fn title(style: Style, st: WriterState, file: Seq<char>) -> Seq<char> {
    if style.config.no_filename || !style.use_heading || st.current_file == Some(file) {
        Seq::empty()
    } else {
        (if st.current_file is Some {
            seq!['\n']
        } else {
            Seq::empty()
        }) + style.path(file) + seq!['\n']
    }
}

/// A line that matches is printed with the fields that are asked for: the path
/// unless it stands above, the line number, the column of the first match and
/// the offset, each with the separator of matches behind it, then the line
/// itself. Without colors, and where lines are neither trimmed nor cut.
pub proof fn law_matches_are_printed_with_their_fields(
    style: Style,
    st: WriterState,
    m: MatchView,
)
    requires
        style.config.format == OutputFormat::Heading || style.config.format == OutputFormat::Flat,
        !style.use_color,
        !style.config.trim,
        style.config.max_columns is None,
    ensures
        ({
            let c = style.config;
            let sep = c.field_match_separator@;
            let column = if m.columns.len() > 0 {
                m.columns[0] as nat
            } else {
                1
            };
            let after = style.match_written(st, m);
            &&& after.out == st.out + title(style, st, m.file) + field(
                !style.use_heading && !c.no_filename,
                style.path(m.file),
                sep,
            ) + field(!c.no_line_number, decimal(m.line_number as nat), sep) + field(
                c.column,
                decimal(column),
                sep,
            ) + field(c.byte_offset, decimal(m.absolute_offset as nat), sep) + m.content + seq![
                '\n',
            ]
            &&& after.last_printed == Some((m.file, m.line_number))
            &&& style.use_heading && !c.no_filename ==> after.current_file == Some(m.file)
        }),
{
    reveal(Style::match_written);
    reveal_strlit("\n");
    assert("\n"@ =~= seq!['\n']);
    lemma_prefix(style, m.file, m.line_number, if m.columns.len() > 0 { Some(m.columns[0]) } else { None }, m.absolute_offset, true);
    lemma_titled(style, st, m.file);
    let c = style.config;
    let sep = c.field_match_separator@;
    let column = if m.columns.len() > 0 {
        m.columns[0] as nat
    } else {
        1
    };
    let a = field(!style.use_heading && !c.no_filename, style.path(m.file), sep);
    let b = field(!c.no_line_number, decimal(m.line_number as nat), sep);
    let d = field(c.column, decimal(column), sep);
    let e = field(c.byte_offset, decimal(m.absolute_offset as nat), sep);
    let t = st.out + title(style, st, m.file);
    assert(t + (a + b + d + e) + m.content + "\n"@ =~= t + a + b + d + e + m.content + seq!['\n']);
}

/// A line of context is printed like one that matches, with the separator of
/// context and without a column.
pub proof fn law_context_is_printed_with_its_fields(style: Style, st: WriterState, c: ContextView)
    requires
        !style.is_json(),
        !style.use_color,
        !style.config.trim,
        style.config.max_columns is None,
    ensures
        ({
            let g = style.config;
            let sep = g.field_context_separator@;
            let after = style.context_written(st, c);
            &&& after.out == st.out + title(style, st, c.file) + field(
                !style.use_heading && !g.no_filename,
                style.path(c.file),
                sep,
            ) + field(!g.no_line_number, decimal(c.line_number as nat), sep) + field(
                g.byte_offset,
                decimal(c.absolute_offset as nat),
                sep,
            ) + c.content + seq!['\n']
            &&& after.last_printed == Some((c.file, c.line_number))
            &&& style.use_heading && !g.no_filename ==> after.current_file == Some(c.file)
        }),
{
    reveal(Style::context_written);
    reveal_strlit("\n");
    assert("\n"@ =~= seq!['\n']);
    lemma_prefix(style, c.file, c.line_number, None, c.absolute_offset, false);
    lemma_titled(style, st, c.file);
    let g = style.config;
    let sep = g.field_context_separator@;
    let a = field(!style.use_heading && !g.no_filename, style.path(c.file), sep);
    let b = field(!g.no_line_number, decimal(c.line_number as nat), sep);
    let e = field(g.byte_offset, decimal(c.absolute_offset as nat), sep);
    let t = st.out + title(style, st, c.file);
    let none = Seq::<char>::empty();
    assert(t + (a + b + none + e) + c.content + "\n"@ =~= t + a + b + e + c.content + seq!['\n']);
}

proof fn lemma_titled(style: Style, st: WriterState, file: Seq<char>)
    requires
        !style.use_color,
    ensures
        style.titled(st, file).out == st.out + title(style, st, file),
        style.use_heading && !style.config.no_filename ==> style.titled(st, file).current_file
            == Some(file),
{
    reveal_strlit("\n");
    assert("\n"@ =~= seq!['\n']);
    let lead = if st.current_file is Some {
        "\n"@
    } else {
        Seq::empty()
    };
    assert(st.out + lead + style.path(file) + "\n"@ =~= st.out + (lead + style.path(file) + seq![
        '\n',
    ]));
    assert(st.out + Seq::<char>::empty() =~= st.out);
}

proof fn lemma_prefix(
    style: Style,
    file: Seq<char>,
    line_number: usize,
    column: Option<usize>,
    offset: usize,
    is_match: bool,
)
    requires
        !style.use_color,
    ensures
        ({
            let c = style.config;
            let sep = if is_match {
                c.field_match_separator@
            } else {
                c.field_context_separator@
            };
            style.prefix(file, line_number, column, offset, is_match) == field(
                !style.use_heading && !c.no_filename,
                style.path(file),
                sep,
            ) + field(!c.no_line_number, decimal(line_number as nat), sep) + field(
                c.column && is_match,
                decimal(
                    match column {
                        Some(n) => n as nat,
                        None => 1,
                    },
                ),
                sep,
            ) + field(c.byte_offset, decimal(offset as nat), sep)
        }),
{
}

/// With colors a line brings the same text in the same order, and the codes of a
/// color only around the path above it, around the line number and around what
/// matched: without these there is none in it.
pub proof fn law_colors_are_only_around_parts(style: Style, st: WriterState, m: MatchView)
    requires
        style.config.format == OutputFormat::Heading || style.config.format == OutputFormat::Flat,
        style.config.no_line_number,
        !style.use_heading,
        m.spans.len() == 0,
    ensures
        style.match_written(st, m) == (Style { use_color: false, ..style }).match_written(st, m),
{
    reveal(Style::match_written);
    let plain = Style { use_color: false, ..style };
    let spans = crate::output::printed_spans(style.config, m.content, m.spans);
    assert(spans.len() == 0);
    assert(style.path(m.file) == plain.path(m.file));
}

/// A line that is too long is printed cut, or only named, behind the fields of
/// any other line. Where it is short enough the limit changes nothing.
pub proof fn law_long_lines_are_cut_or_named(style: Style, st: WriterState, m: MatchView, limit: usize)
    requires
        style.config.format == OutputFormat::Heading || style.config.format == OutputFormat::Flat,
        !style.use_color,
        !style.config.trim,
        style.config.max_columns == Some(limit),
    ensures
        ({
            let free = Style {
                config: OutputConfig { max_columns: None, ..style.config },
                ..style
            };
            let size = vstd::utf8::encode_utf8(m.content).len() + m.terminator_len;
            let shown = if style.config.max_columns_preview {
                crate::slices::piece(
                    m.content,
                    0,
                    crate::slices::floor_at(m.content, limit as int),
                ) + " [... omitted end of long line]"@
            } else {
                "[Omitted long matching line]"@
            };
            &&& size <= limit ==> style.match_written(st, m) == free.match_written(st, m)
            &&& size > limit ==> style.match_written(st, m) == free.match_written(
                st,
                MatchView { content: shown, spans: Seq::empty(), ..m },
            )
        }),
{
    reveal(Style::match_written);
    let free = Style { config: OutputConfig { max_columns: None, ..style.config }, ..style };
    assert(style.path(m.file) == free.path(m.file));
}

/// A line of context that is too long is cut or named in the same way.
pub proof fn law_long_context_is_cut_or_named(
    style: Style,
    st: WriterState,
    c: ContextView,
    limit: usize,
)
    requires
        !style.is_json(),
        !style.config.trim,
        style.config.max_columns == Some(limit),
    ensures
        ({
            let free = Style {
                config: OutputConfig { max_columns: None, ..style.config },
                ..style
            };
            let size = vstd::utf8::encode_utf8(c.content).len() + c.terminator_len;
            let shown = if style.config.max_columns_preview {
                crate::slices::piece(
                    c.content,
                    0,
                    crate::slices::floor_at(c.content, limit as int),
                ) + " [... omitted end of long line]"@
            } else {
                "[Omitted long context line]"@
            };
            &&& size <= limit ==> style.context_written(st, c) == free.context_written(st, c)
            &&& size > limit ==> style.context_written(st, c) == free.context_written(
                st,
                ContextView { content: shown, ..c },
            )
        }),
{
    reveal(Style::context_written);
    let free = Style { config: OutputConfig { max_columns: None, ..style.config }, ..style };
    assert(style.path(c.file) == free.path(c.file));
}

/// Where lines are trimmed, a line without colors is printed as one without the
/// white space around it would be.
pub proof fn law_trimmed_matches_lose_the_space_around_them(
    style: Style,
    st: WriterState,
    m: MatchView,
)
    requires
        style.config.format == OutputFormat::Heading || style.config.format == OutputFormat::Flat,
        !style.use_color,
        style.config.trim,
    ensures
        ({
            let bare = Style { config: OutputConfig { trim: false, ..style.config }, ..style };
            let inner = MatchView { content: crate::text::trimmed(m.content), ..m };
            style.match_written(st, m).out == bare.match_written(st, inner).out
        }),
{
    reveal(Style::match_written);
    let bare = Style { config: OutputConfig { trim: false, ..style.config }, ..style };
    let inner = MatchView { content: crate::text::trimmed(m.content), ..m };
    assert(style.path(m.file) == bare.path(m.file));
    assert(style.titled(st, m.file) == bare.titled(st, m.file));
    let column = if m.columns.len() > 0 {
        Some(m.columns[0])
    } else {
        None
    };
    assert(style.prefix(m.file, m.line_number, column, m.absolute_offset, true) == bare.prefix(
        m.file,
        m.line_number,
        column,
        m.absolute_offset,
        true,
    ));
    assert(crate::output::clipped_text(style.config, inner.content, true)
        == crate::output::clipped_text(bare.config, inner.content, true));
}

/// Where lines are trimmed, so are those of context.
pub proof fn law_trimmed_context_loses_the_space_around_it(
    style: Style,
    st: WriterState,
    c: ContextView,
)
    requires
        !style.is_json(),
        style.config.trim,
    ensures
        ({
            let bare = Style { config: OutputConfig { trim: false, ..style.config }, ..style };
            let inner = ContextView { content: crate::text::trimmed(c.content), ..c };
            style.context_written(st, c).out == bare.context_written(st, inner).out
        }),
{
    reveal(Style::context_written);
    let bare = Style { config: OutputConfig { trim: false, ..style.config }, ..style };
    let inner = ContextView { content: crate::text::trimmed(c.content), ..c };
    assert(style.path(c.file) == bare.path(c.file));
    assert(style.titled(st, c.file) == bare.titled(st, c.file));
    assert(style.prefix(c.file, c.line_number, None, c.absolute_offset, false) == bare.prefix(
        c.file,
        c.line_number,
        None,
        c.absolute_offset,
        false,
    ));
    assert(crate::output::clipped_text(style.config, inner.content, false)
        == crate::output::clipped_text(bare.config, inner.content, false));
}

/// A row for an editor: path, line, column and the line itself, by colons.
pub open spec fn editor_row(style: Style, m: MatchView, column: nat) -> Seq<char> {
    style.path(m.file) + seq![':'] + decimal(m.line_number as nat) + seq![':'] + decimal(column)
        + seq![':'] + m.content + seq!['\n']
}

/// For an editor a line is printed once for each match in it, in order, whatever
/// else is asked for; and once where the places are not known.
pub proof fn law_editors_get_a_row_for_each_match(style: Style, st: WriterState, m: MatchView)
    requires
        style.config.format == OutputFormat::Vimgrep,
        !style.use_color,
        !style.config.trim,
    ensures
        m.columns.len() == 0 ==> style.match_written(st, m).out == st.out + editor_row(style, m, 1),
        m.columns.len() == 1 ==> style.match_written(st, m).out == st.out + editor_row(
            style,
            m,
            m.columns[0] as nat,
        ),
        m.columns.len() > 1 ==> style.match_written(st, m).out == style.match_written(
            st,
            MatchView { columns: m.columns.drop_last(), ..m },
        ).out + editor_row(style, m, m.columns.last() as nat),
{
    reveal(Style::match_written);
    reveal_strlit(":");
    reveal_strlit("\n");
    assert(":"@ =~= seq![':']);
    assert("\n"@ =~= seq!['\n']);
    if m.columns.len() == 1 {
        let none = m.columns.drop_last();
        assert(style.vimgrep_rows(m.file, m.line_number, none, m.content) =~= Seq::<char>::empty());
        assert(Seq::<char>::empty() + editor_row(style, m, m.columns[0] as nat) =~= editor_row(
            style,
            m,
            m.columns[0] as nat,
        ));
    }
    if m.columns.len() > 1 {
        let front = m.columns.drop_last();
        let rows = style.vimgrep_rows(m.file, m.line_number, front, m.content);
        let row = editor_row(style, m, m.columns.last() as nat);
        assert(st.out + (rows + row) =~= st.out + rows + row);
    }
}

/// A line between two groups of lines stands where lines with context follow
/// others that they do not join: in the same file with lines left out, or in
/// another file without a heading of its own. Nowhere else, and not in JSON.
pub proof fn law_groups_of_lines_are_separated(
    style: Style,
    st: WriterState,
    file: Seq<char>,
    line: usize,
    last_file: Seq<char>,
    last_line: usize,
)
    requires
        st.last_printed == Some((last_file, last_line)),
    ensures
        ({
            let apart = if last_file == file {
                line > last_line + 1
            } else {
                !style.use_heading
            };
            let after = style.separated(st, file, line);
            match style.config.context_separator {
                Some(s) => if apart && style.config.context && style.config.format
                    != OutputFormat::Json {
                    after.out == st.out + s@ + seq!['\n']
                } else {
                    after == st
                },
                None => after == st,
            }
        }),
{
    reveal(Style::separated);
    reveal_strlit("\n");
    assert("\n"@ =~= seq!['\n']);
}

/// Nothing stands before the first line.
pub proof fn law_nothing_separates_the_first_line(
    style: Style,
    st: WriterState,
    file: Seq<char>,
    line: usize,
)
    requires
        st.last_printed is None,
    ensures
        style.separated(st, file, line) == st,
{
    reveal(Style::separated);
}

/// A name is printed with a line feed behind it, or a null byte where that is
/// asked for; a count behind the path and the separator of matches.
pub proof fn law_names_and_counts_stand_on_their_own_lines(
    style: Style,
    st: WriterState,
    file: Seq<char>,
    count: nat,
)
    ensures
        style.file_written(st, file).out == st.out + style.path(file) + seq![
            if style.config.null {
                '\0'
            } else {
                '\n'
            },
        ],
        style.count_written(st, file, count).out == st.out + field(
            !style.config.no_filename,
            style.path(file),
            style.config.field_match_separator@,
        ) + decimal(count) + seq!['\n'],
{
    reveal(Style::file_written);
    reveal(Style::count_written);
    reveal_strlit("\n");
    reveal_strlit("\0");
    assert("\n"@ =~= seq!['\n']);
    assert("\0"@ =~= seq!['\0']);
}

/// A note of a binary file names the file and where its null byte is.
pub proof fn law_notes_say_where_the_null_byte_is(
    style: Style,
    st: WriterState,
    file: Seq<char>,
    offset: usize,
)
    requires
        style.config.format != OutputFormat::Json,
    ensures
        style.binary_noted(st, file, offset).out == st.out + (if style.config.no_filename {
            Seq::empty()
        } else {
            style.path(file) + seq![':', ' ']
        }) + "binary file matches (found \"\\0\" byte around offset "@ + decimal(offset as nat)
            + seq![')', '\n'],
{
    reveal(Style::binary_noted);
    reveal_strlit(": ");
    reveal_strlit(")\n");
    assert(": "@ =~= seq![':', ' ']);
    assert(")\n"@ =~= seq![')', '\n']);
    let lead = if style.config.no_filename {
        Seq::empty()
    } else {
        style.path(file) + seq![':', ' ']
    };
    let words = "binary file matches (found \"\\0\" byte around offset "@;
    assert(st.out + (lead + words + decimal(offset as nat) + ")\n"@) =~= st.out + lead + words
        + decimal(offset as nat) + seq![')', '\n']);
}

/// A path is printed as it is found below what was named, or as the file that
/// was named.
pub proof fn law_paths_are_printed_below_what_was_named(style: Style, file: Seq<char>)
    requires
        style.config.path_separator is None,
        style.separator == '/',
    ensures
        style.config.path_display matches PathDisplay::Bare ==> style.path(file) == file,
        style.config.path_display matches PathDisplay::Prefix(p) ==> style.path(file) == p@ + file,
        style.config.path_display matches PathDisplay::Exact(p) ==> style.path(file) == p@,
{
}

/// Where the platform separates paths by another character, that stands in place
/// of every slash.
pub proof fn law_paths_are_printed_with_the_platforms_separator(style: Style, file: Seq<char>)
    requires
        style.config.path_separator is None,
        style.config.path_display is Bare,
    ensures
        style.path(file).len() == file.len(),
        forall|i: int|
            0 <= i < file.len() ==> #[trigger] style.path(file)[i] == (if file[i] == '/' {
                style.separator
            } else {
                file[i]
            }),
{
}

/// A separator that is asked for stands in place of every slash and backslash,
/// and nothing else of the path changes.
pub proof fn law_asked_separators_replace_both_slashes(
    style: Style,
    sep: String,
    a: Seq<char>,
    b: Seq<char>,
    slash: char,
)
    requires
        style.config.path_separator == Some(sep),
        style.config.path_display is Bare,
        style.separator == '/',
        slash == '/' || slash == '\\',
        !b.contains('/'),
        !b.contains('\\'),
    ensures
        style.path(b) == b,
        style.path(a.push(slash) + b) == style.path(a) + sep@ + b,
{
    lemma_no_slash(b, sep@);
    lemma_slash(a, b, slash, sep@);
}

proof fn lemma_no_slash(b: Seq<char>, sep: Seq<char>)
    requires
        !b.contains('/'),
        !b.contains('\\'),
    ensures
        crate::output::separators_replaced(b, sep) == b,
    decreases b.len(),
{
    if b.len() > 0 {
        let front = b.drop_last();
        assert(b.contains(b[b.len() - 1]));
        assert forall|c: char| front.contains(c) implies b.contains(c) by {
            let i = choose|i: int| 0 <= i < front.len() && front[i] == c;
            assert(b[i] == c);
        }
        lemma_no_slash(front, sep);
        assert(front + seq![b.last()] =~= b);
    } else {
        assert(crate::output::separators_replaced(b, sep) =~= b);
    }
}

proof fn lemma_slash(a: Seq<char>, b: Seq<char>, slash: char, sep: Seq<char>)
    requires
        slash == '/' || slash == '\\',
        !b.contains('/'),
        !b.contains('\\'),
    ensures
        crate::output::separators_replaced(a.push(slash) + b, sep)
            == crate::output::separators_replaced(a, sep) + sep + b,
    decreases b.len(),
{
    let all = a.push(slash) + b;
    if b.len() == 0 {
        assert(all =~= a.push(slash));
        assert(a.push(slash).drop_last() =~= a);
        assert(crate::output::separators_replaced(a, sep) + sep + b
            =~= crate::output::separators_replaced(a, sep) + sep);
    } else {
        let front = b.drop_last();
        assert(b.contains(b[b.len() - 1]));
        assert forall|c: char| front.contains(c) implies b.contains(c) by {
            let i = choose|i: int| 0 <= i < front.len() && front[i] == c;
            assert(b[i] == c);
        }
        lemma_slash(a, front, slash, sep);
        assert(all.drop_last() =~= a.push(slash) + front);
        assert(all.last() == b.last());
        let start = crate::output::separators_replaced(a, sep) + sep;
        assert(start + front + seq![b.last()] =~= start + b);
    }
}

/// Whether a file that was read is searched at all: a binary one is only where
/// it was named, or where that was asked for.
pub open spec fn is_searched(read: FileRead, o: SearchOptionsView, explicit: bool) -> bool {
    read.first_nul is None || o.text || o.binary || explicit
}

/// For a file with a match, where counts are asked for and nothing takes
/// precedence, one line is written, and it ends in the number: that of the
/// matches in the file where matches are counted, and else that of the lines
/// that match.
pub proof fn law_counts_are_of_matches_or_lines(
    style: Style,
    st: WriterState,
    read: FileRead,
    found: Found,
    file: Seq<char>,
    o: SearchOptionsView,
    explicit: bool,
)
    requires
        is_searched(read, o, explicit),
        !found.is_empty,
        o.count || o.count_matches,
        !o.quiet,
        !o.files_without_match,
        !o.files_only,
    ensures
        ({
            let (after, selected) = file_selected(style, st, read, found, file, o, explicit);
            &&& selected
            &&& o.count_matches ==> after.out == st.out + field(
                !style.config.no_filename,
                style.path(file),
                style.config.field_match_separator@,
            ) + decimal(found.match_count as nat) + seq!['\n']
            &&& !o.count_matches ==> after.out == st.out + field(
                !style.config.no_filename,
                style.path(file),
                style.config.field_match_separator@,
            ) + decimal(found.matched_lines as nat) + seq!['\n']
        }),
{
    reveal(file_selected);
    reveal(file_searched);
    let noted = crate::file_search::file_noted(st, read, found, o);
    law_names_and_counts_stand_on_their_own_lines(
        style,
        noted,
        file,
        if o.count_matches {
            found.match_count as nat
        } else {
            found.matched_lines as nat
        },
    );
}

/// A file without a match is counted as zero where zeros are asked for, and
/// nothing is written of it otherwise.
pub proof fn law_zero_counts_are_only_printed_on_request(
    style: Style,
    st: WriterState,
    read: FileRead,
    found: Found,
    file: Seq<char>,
    o: SearchOptionsView,
    explicit: bool,
)
    requires
        is_searched(read, o, explicit),
        found.is_empty,
        o.count || o.count_matches,
        !o.files_without_match,
    ensures
        ({
            let (after, selected) = file_selected(style, st, read, found, file, o, explicit);
            &&& !selected
            &&& after.out == (if o.include_zero && !o.quiet {
                st.out + field(
                    !style.config.no_filename,
                    style.path(file),
                    style.config.field_match_separator@,
                ) + decimal(0) + seq!['\n']
            } else {
                st.out
            })
        }),
{
    reveal(file_selected);
    reveal(file_searched);
    let noted = crate::file_search::file_noted(st, read, found, o);
    law_names_and_counts_stand_on_their_own_lines(style, noted, file, 0);
}

/// Where names are asked for, a file with a match brings its name, and one
/// without brings nothing; where names of files without a match are, it is the
/// other way round.
pub proof fn law_names_are_of_files_with_or_without_a_match(
    style: Style,
    st: WriterState,
    read: FileRead,
    found: Found,
    file: Seq<char>,
    o: SearchOptionsView,
    explicit: bool,
)
    requires
        is_searched(read, o, explicit),
        !o.quiet,
        o.files_only || o.files_without_match,
        !o.count && !o.count_matches,
    ensures
        ({
            let (after, selected) = file_selected(style, st, read, found, file, o, explicit);
            let wanted = if o.files_without_match {
                found.is_empty
            } else {
                !found.is_empty
            };
            &&& selected == wanted
            &&& wanted ==> after.out == st.out + style.path(file) + seq![
                if style.config.null {
                    '\0'
                } else {
                    '\n'
                },
            ]
            &&& !wanted ==> after.out == st.out
        }),
{
    reveal(file_selected);
    reveal(file_searched);
    let noted = crate::file_search::file_noted(st, read, found, o);
    law_names_and_counts_stand_on_their_own_lines(style, noted, file, 0);
}

/// A quiet search prints nothing, and tells a file with a match from one
/// without.
pub proof fn law_quiet_searches_print_nothing(
    style: Style,
    st: WriterState,
    read: FileRead,
    found: Found,
    file: Seq<char>,
    o: SearchOptionsView,
    explicit: bool,
)
    requires
        is_searched(read, o, explicit),
        o.quiet,
    ensures
        ({
            let (after, selected) = file_selected(style, st, read, found, file, o, explicit);
            &&& after.out == st.out
            &&& selected == (if o.files_without_match {
                found.is_empty
            } else {
                !found.is_empty
            })
        }),
{
    reveal(file_selected);
    reveal(file_searched);
}

/// Of a binary file with a match only a note is printed, unless it is searched
/// as text.
pub proof fn law_binary_files_bring_only_a_note(
    style: Style,
    st: WriterState,
    read: FileRead,
    found: Found,
    file: Seq<char>,
    o: SearchOptionsView,
    explicit: bool,
)
    requires
        read.first_nul is Some,
        read.fixups@.len() == 0,
        !o.text,
        o.binary || explicit,
        !found.is_empty,
        !o.quiet && !o.files_only && !o.files_without_match && !o.count && !o.count_matches,
        style.config.format != OutputFormat::Json,
    ensures
        ({
            let (after, selected) = file_selected(style, st, read, found, file, o, explicit);
            selected && after.out == style.binary_noted(st, file, read.first_nul->0).out
        }),
{
    reveal(file_selected);
    reveal(file_searched);
    reveal(Style::binary_noted);
}

/// Where colors are used, what matched stands between the code that turns the
/// color on and the one that turns it off, and nothing else of the line does.
pub proof fn law_what_matched_is_colored(content: Seq<char>, a: usize, b: usize)
    requires
        a < b,
        crate::slices::is_boundary(content, a as int),
        crate::slices::is_boundary(content, b as int),
    ensures
        ({
            let size = crate::slices::size_of(content) as int;
            crate::output::highlighted(true, content, seq![(a, b)]) == crate::slices::piece(
                content,
                0,
                a as int,
            ) + ("\x1b[1;31m"@ + crate::slices::piece(content, a as int, b as int) + "\x1b[0m"@)
                + crate::slices::piece(content, b as int, size)
        }),
        crate::output::highlighted(false, content, seq![(a, b)]) == content,
        crate::output::highlighted(true, content, Seq::empty()) == content,
{
    let spans = seq![(a, b)];
    reveal_with_fuel(crate::output::marked_from, 3);
    assert(crate::slices::floor_at(content, a as int) == a);
    assert(crate::slices::floor_at(content, b as int) == b);
    assert(spans.skip(1) =~= Seq::<(usize, usize)>::empty());
}

/// Where lines are trimmed, the places of matches move with the text: each by
/// what was cut before it, and none outside it.
pub proof fn law_trimmed_lines_keep_the_places_of_matches(
    config: OutputConfig,
    s: Seq<char>,
    span: (usize, usize),
)
    requires
        config.trim,
    ensures
        ({
            let cut = crate::slices::size_of(s) - crate::slices::size_of(
                crate::text::without_start(s, |c: char| crate::text::is_space(c)),
            );
            let size = crate::slices::size_of(crate::text::trimmed(s));
            let places = crate::output::printed_spans(config, s, seq![span]);
            cut <= span.0 && span.0 < span.1 && span.1 - cut <= size && cut >= 0 ==> places == seq![
                ((span.0 - cut) as usize, (span.1 - cut) as usize),
            ]
        }),
{
    reveal_with_fuel(Seq::filter_map, 2);
    let f = |x: (usize, usize)|
        crate::output::shifted(
            x,
            crate::output::trimmed_off(s),
            crate::slices::size_of(crate::text::trimmed(s)) as int,
        );
    let one = seq![span];
    assert(one.drop_last() =~= Seq::<(usize, usize)>::empty());
    if let Some(r) = f(span) {
        assert(one.filter_map(f) =~= seq![r]);
    }
}

/// Without trimming the places of matches are as they are.
pub proof fn law_untrimmed_lines_keep_their_places(
    config: OutputConfig,
    s: Seq<char>,
    spans: Seq<(usize, usize)>,
)
    requires
        !config.trim,
    ensures
        crate::output::printed_spans(config, s, spans) == spans,
        crate::output::printed_content(config, s) == s,
{
}

/// Where lines are to be handed on at once, each is; and else only when the
/// output is flushed.
pub proof fn law_lines_are_handed_on_at_once_on_request(
    style: Style,
    st: WriterState,
    m: MatchView,
    c: ContextView,
    file: Seq<char>,
    n: nat,
)
    requires
        !style.is_json(),
        !st.flush_due,
    ensures
        style.match_written(st, m).flush_due == style.config.line_buffered,
        style.context_written(st, c).flush_due == style.config.line_buffered,
        style.file_written(st, file).flush_due == style.config.line_buffered,
        style.count_written(st, file, n).flush_due == style.config.line_buffered,
{
    reveal(Style::match_written);
    reveal(Style::context_written);
    reveal(Style::file_written);
    reveal(Style::count_written);
}

/// With colors a line number stands between the code that turns its color on and
/// the one that turns it off.
pub proof fn law_line_numbers_are_colored(
    style: Style,
    file: Seq<char>,
    line_number: usize,
    offset: usize,
)
    requires
        style.use_color,
        style.use_heading || style.config.no_filename,
        !style.config.no_line_number,
        !style.config.column,
        !style.config.byte_offset,
    ensures
        style.prefix(file, line_number, None, offset, true) == "\x1b[32m"@ + decimal(
            line_number as nat,
        ) + "\x1b[0m"@ + style.config.field_match_separator@,
{
    let n = "\x1b[32m"@ + decimal(line_number as nat) + "\x1b[0m"@;
    let sep = style.config.field_match_separator@;
    let none = Seq::<char>::empty();
    assert(none + (n + sep) + none + none =~= n + sep);
}

/// With colors and headings the path above a file's lines is colored, behind an
/// empty line where another file was printed before.
pub proof fn law_headings_are_colored(style: Style, st: WriterState, file: Seq<char>)
    requires
        style.use_color && style.use_heading && !style.config.no_filename,
        st.current_file != Some(file),
    ensures
        style.titled(st, file).out == st.out + (if st.current_file is Some {
            "\n"@
        } else {
            Seq::empty()
        }) + ("\x1b[35m"@ + style.path(file) + "\x1b[0m"@) + "\n"@,
        style.titled(st, file).current_file == Some(file),
{
}

} // verus!
