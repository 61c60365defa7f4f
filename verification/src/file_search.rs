//! Searching one file: what is reported of what was found in it.
use crate::bytes::utf8_text;
use crate::fixups::{law_source_offsets_keep_order, source_offset, LossyFixups, Repair};
use crate::options::{SearchOptions, SearchOptionsView};
use crate::output::{
    plus, ContextLine, ContextView, Match, MatchView, OutputWriter, Style, WriterState,
};
use crate::scan::{is_first_nul, validate_utf8_and_find_nul};
use crate::slices::size_of;
use crate::text::{byte_len, owned};
use vstd::prelude::*;
use vstd::utf8::{decode_utf8, encode_utf8, valid_utf8};

verus! {

/// A file's text together with what reading it showed.
pub struct FileRead {
    pub text: String,
    pub fixups: LossyFixups,
    /// Offset of the first NUL byte in the text, which is what makes a file
    /// binary.
    pub first_nul: Option<usize>,
}

/// The smallest file that is worth mapping into memory. Mapping costs more than
/// reading a small file does, and above this reading the whole is what costs.
pub const MAP_MIN_BYTES: u64 = 1_048_576;

impl FileRead {
    /// The text of a file that was decoded, with the repairs it needed. Offsets
    /// are reported in the repaired text, so that is where the NUL byte is
    /// looked for.
    pub fn decoded(text: String, fixups: LossyFixups) -> (r: FileRead)
        ensures
            r.text@ == text@,
            r.fixups == fixups,
            is_first_nul(encode_utf8(text@), r.first_nul),
    {
        let first_nul = memchr::memchr(0, text.as_str().as_bytes());
        FileRead { text, fixups, first_nul }
    }

    /// The text of a file that is searched as it is on disk: one large enough,
    /// whose bytes are UTF-8 already, which need no repairs.
    pub fn mapped(bytes: &[u8]) -> (r: Option<FileRead>)
        ensures
            match r {
                Some(read) => bytes@.len() >= MAP_MIN_BYTES && valid_utf8(bytes@) && read.text@
                    == decode_utf8(bytes@) && read.fixups.wf() && read.fixups@.len() == 0
                    && is_first_nul(bytes@, read.first_nul),
                None => bytes@.len() < MAP_MIN_BYTES || !valid_utf8(bytes@),
            },
    {
        if (bytes.len() as u64) < MAP_MIN_BYTES {
            return None;
        }
        let first_nul = validate_utf8_and_find_nul(bytes)?;
        match utf8_text(bytes) {
            Ok(text) => {
                let none: Vec<Repair> = Vec::new();
                match LossyFixups::from_repairs(none) {
                    Some(fixups) => Some(FileRead { text, fixups, first_nul }),
                    None => None,
                }
            },
            Err(_) => None,
        }
    }
}

/// Something to print of a file, in terms of its decoded text.
pub enum Emit {
    Match {
        line_number: usize,
        content: String,
        columns: Vec<usize>,
        spans: Vec<(usize, usize)>,
        absolute_offset: usize,
        /// Where the line starts.
        line_offset: usize,
        /// By how much replacing moved each column.
        column_shifts: Vec<isize>,
        /// By how much replacing moved the line.
        offset_shift: isize,
        terminator_len: usize,
    },
    Context {
        line_number: usize,
        content: String,
        absolute_offset: usize,
        terminator_len: usize,
    },
}

/// What an [`Emit`] says.
pub enum EmitView {
    Match {
        line_number: usize,
        content: Seq<char>,
        columns: Seq<usize>,
        spans: Seq<(usize, usize)>,
        absolute_offset: usize,
        line_offset: usize,
        column_shifts: Seq<isize>,
        offset_shift: isize,
        terminator_len: usize,
    },
    Context {
        line_number: usize,
        content: Seq<char>,
        absolute_offset: usize,
        terminator_len: usize,
    },
}

impl View for Emit {
    type V = EmitView;

    open spec fn view(&self) -> EmitView {
        match self {
            Emit::Match {
                line_number,
                content,
                columns,
                spans,
                absolute_offset,
                line_offset,
                column_shifts,
                offset_shift,
                terminator_len,
            } => EmitView::Match {
                line_number: *line_number,
                content: content@,
                columns: columns@,
                spans: spans@,
                absolute_offset: *absolute_offset,
                line_offset: *line_offset,
                column_shifts: column_shifts@,
                offset_shift: *offset_shift,
                terminator_len: *terminator_len,
            },
            Emit::Context { line_number, content, absolute_offset, terminator_len } =>
                EmitView::Context {
                line_number: *line_number,
                content: content@,
                absolute_offset: *absolute_offset,
                terminator_len: *terminator_len,
            },
        }
    }
}

/// What was found in a file.
pub struct Found {
    /// Whether nothing matched.
    pub is_empty: bool,
    pub total_matches: u64,
    pub total_matched_lines: u64,
    pub match_count: usize,
    pub matched_lines: usize,
    /// What is to be printed, in order.
    pub emits: Vec<Emit>,
}

/// What was found, as it is to be printed.
pub open spec fn emit_views(emits: Seq<Emit>) -> Seq<EmitView> {
    emits.map_values(|e: Emit| e@)
}

/// What happened to one file. A binary file that was not asked for is skipped:
/// it is not a file without a match either.
#[derive(Clone, Copy, Debug, PartialEq, Eq, Structural)]
pub enum FileOutcome {
    Matched,
    NoMatch,
    Skipped,
}

/// A number moved by a distance, and kept in range.
pub open spec fn moved(n: usize, by: isize) -> int {
    if n + by < 0 {
        0
    } else if n + by > usize::MAX {
        usize::MAX as int
    } else {
        n + by
    }
}

fn move_by(n: usize, by: isize) -> (r: usize)
    ensures
        r == moved(n, by),
{
    if by >= 0 {
        let d: usize = by as usize;
        if d > usize::MAX - n {
            usize::MAX
        } else {
            n + d
        }
    } else if by == isize::MIN {
        let d: usize = isize::MAX as usize;
        if n <= d {
            0
        } else {
            n - d - 1
        }
    } else {
        let d: usize = (-by) as usize;
        if d > n {
            0
        } else {
            n - d
        }
    }
}

/// A column of a line of the decoded text, on disk.
pub open spec fn source_column(repairs: Seq<Repair>, line_offset: int, column: int) -> int {
    if repairs.len() == 0 {
        column
    } else {
        source_offset(repairs, line_offset + column - 1) - source_offset(repairs, line_offset) + 1
    }
}

/// The columns of a line of the decoded text, on disk.
pub open spec fn source_columns(
    repairs: Seq<Repair>,
    line_offset: int,
    columns: Seq<usize>,
) -> Seq<usize> {
    columns.map_values(|c: usize| source_column(repairs, line_offset, c as int) as usize)
}

/// Whether columns count from one and lie within what can be addressed.
pub open spec fn columns_fit(line_offset: usize, columns: Seq<usize>) -> bool {
    forall|i: int|
        0 <= i < columns.len() ==> 1 <= #[trigger] columns[i] && line_offset + columns[i] - 1
            <= usize::MAX
}

/// Maps columns of a line from decoded text to the source bytes. Columns count
/// bytes from the start of the line, so both ends are mapped.
pub fn to_source_columns(columns: &Vec<usize>, line_offset: usize, fixups: &LossyFixups) -> (r: Vec<
    usize,
>)
    requires
        fixups.wf(),
        fixups@.len() > 0 ==> columns_fit(line_offset, columns@),
    ensures
        r@ == source_columns(fixups@, line_offset as int, columns@),
        r@.len() == columns@.len(),
{
    let mut out: Vec<usize> = Vec::new();
    let ghost f = |c: usize| source_column(fixups@, line_offset as int, c as int) as usize;
    let plain = fixups.is_empty();
    let line: usize = fixups.to_source_offset(line_offset);
    let mut i: usize = 0;
    assert(out@ =~= columns@.take(0).map_values(f));
    while i < columns.len()
        invariant
            i <= columns@.len(),
            fixups.wf(),
            plain == (fixups@.len() == 0),
            fixups@.len() > 0 ==> columns_fit(line_offset, columns@),
            line == source_offset(fixups@, line_offset as int),
            f == (|c: usize| source_column(fixups@, line_offset as int, c as int) as usize),
            out@ == columns@.take(i as int).map_values(f),
        decreases columns@.len() - i,
    {
        let c: usize = columns[i];
        let mapped: usize = if plain {
            c
        } else {
            assert(1 <= columns@[i as int] && line_offset + columns@[i as int] - 1 <= usize::MAX);
            let at: usize = line_offset + (c - 1);
            let to: usize = fixups.to_source_offset(at);
            proof {
                law_source_offsets_keep_order(fixups@, line_offset as int, at as int);
                crate::fixups::lemma_source_shrinks(fixups@, line_offset as int, at as int);
            }
            to - line + 1
        };
        assert(mapped == f(c));
        out.push(mapped);
        assert(columns@.take(i + 1).map_values(f) =~= columns@.take(i as int).map_values(f).push(
            f(c),
        ));
        i += 1;
    }
    assert(columns@.take(columns@.len() as int) =~= columns@);
    out
}

/// Columns moved by what replacing moved them, and kept from one up. A column
/// without a shift stays.
pub open spec fn shifted_columns(columns: Seq<usize>, shifts: Seq<isize>) -> Seq<usize> {
    Seq::new(
        columns.len(),
        |i: int|
            if i < shifts.len() {
                (if moved(columns[i], shifts[i]) < 1 {
                    1
                } else {
                    moved(columns[i], shifts[i])
                }) as usize
            } else {
                columns[i]
            },
    )
}

/// Maps a match's columns and offset onto the bytes on disk, and by what
/// replacing moved them.
pub fn to_source_positions(
    columns: &Vec<usize>,
    column_shifts: &Vec<isize>,
    absolute_offset: usize,
    offset_shift: isize,
    line_offset: usize,
    fixups: &LossyFixups,
) -> (r: (Vec<usize>, usize))
    requires
        fixups.wf(),
        fixups@.len() > 0 ==> columns_fit(line_offset, columns@),
    ensures
        r.0@ == shifted_columns(
            source_columns(fixups@, line_offset as int, columns@),
            column_shifts@,
        ),
        r.1 == moved(source_offset(fixups@, absolute_offset as int) as usize, offset_shift),
{
    let mapped = to_source_columns(columns, line_offset, fixups);
    let mut out: Vec<usize> = Vec::new();
    let ghost all = shifted_columns(mapped@, column_shifts@);
    let mut i: usize = 0;
    while i < mapped.len()
        invariant
            i <= mapped@.len(),
            all == shifted_columns(mapped@, column_shifts@),
            out@ == all.take(i as int),
        decreases mapped@.len() - i,
    {
        let column: usize = if i < column_shifts.len() {
            let c: usize = move_by(mapped[i], column_shifts[i]);
            if c < 1 {
                1
            } else {
                c
            }
        } else {
            mapped[i]
        };
        out.push(column);
        assert(all.take(i + 1) =~= all.take(i as int).push(all[i as int]));
        i += 1;
    }
    assert(all.take(all.len() as int) =~= all);
    (out, move_by(fixups.to_source_offset(absolute_offset), offset_shift))
}

/// Where a file counts as binary, on disk; nowhere where it is searched as
/// text.
pub open spec fn binary_at(read: FileRead, text: bool) -> Option<usize> {
    if text {
        None
    } else {
        match read.first_nul {
            Some(at) => Some(source_offset(read.fixups@, at as int) as usize),
            None => None,
        }
    }
}

/// The match that is printed.
pub open spec fn emitted_match(
    repairs: Seq<Repair>,
    file: Seq<char>,
    line_number: usize,
    content: Seq<char>,
    columns: Seq<usize>,
    spans: Seq<(usize, usize)>,
    absolute_offset: usize,
    line_offset: usize,
    column_shifts: Seq<isize>,
    offset_shift: isize,
    terminator_len: usize,
) -> MatchView {
    MatchView {
        file,
        line_number,
        content,
        columns: shifted_columns(
            source_columns(repairs, line_offset as int, columns),
            column_shifts,
        ),
        spans,
        absolute_offset: moved(
            source_offset(repairs, absolute_offset as int) as usize,
            offset_shift,
        ) as usize,
        terminator_len,
    }
}

/// The state once something is printed.
pub open spec fn emit_written(
    style: Style,
    st: WriterState,
    repairs: Seq<Repair>,
    file: Seq<char>,
    emit: EmitView,
) -> WriterState {
    match emit {
        EmitView::Match {
            line_number,
            content,
            columns,
            spans,
            absolute_offset,
            line_offset,
            column_shifts,
            offset_shift,
            terminator_len,
        } => style.match_written(
            style.separated(st, file, line_number),
            emitted_match(
                repairs,
                file,
                line_number,
                content,
                columns,
                spans,
                absolute_offset,
                line_offset,
                column_shifts,
                offset_shift,
                terminator_len,
            ),
        ),
        EmitView::Context { line_number, content, absolute_offset, terminator_len } =>
            style.context_written(
            style.separated(st, file, line_number),
            ContextView {
                file,
                line_number,
                content,
                absolute_offset: source_offset(repairs, absolute_offset as int) as usize,
                terminator_len,
            },
        ),
    }
}

/// The state once everything is printed.
pub open spec fn emits_written(
    style: Style,
    st: WriterState,
    repairs: Seq<Repair>,
    file: Seq<char>,
    emits: Seq<EmitView>,
) -> WriterState
    decreases emits.len(),
{
    if emits.len() == 0 {
        st
    } else {
        emit_written(
            style,
            emits_written(style, st, repairs, file, emits.drop_last()),
            repairs,
            file,
            emits.last(),
        )
    }
}

/// Whether something can be printed: its columns count from one, and in JSON
/// mode its matches lie between characters.
pub open spec fn emit_fits(emit: EmitView, style: Style, repaired: bool) -> bool {
    match emit {
        EmitView::Match { content, columns, spans, line_offset, .. } => style.takes(content, spans)
            && (repaired ==> columns_fit(line_offset, columns)),
        EmitView::Context { .. } => true,
    }
}

/// Whether everything can be printed.
pub open spec fn emits_fit(emits: Seq<EmitView>, style: Style, repaired: bool) -> bool {
    forall|i: int| 0 <= i < emits.len() ==> emit_fits(#[trigger] emits[i], style, repaired)
}

/// The state once a file has been counted as searched and its matches noted.
pub open spec fn file_noted(
    st: WriterState,
    read: FileRead,
    found: Found,
    o: SearchOptionsView,
) -> WriterState {
    let bytes = match binary_at(read, o.text) {
        Some(at) => at as u64,
        None => source_offset(read.fixups@, size_of(read.text@) as int) as u64,
    };
    let searched = WriterState {
        pending_bytes_searched: bytes,
        all_bytes_searched: plus(st.all_bytes_searched, bytes),
        all_searches: plus(st.all_searches, 1),
        ..st
    };
    if o.stats {
        WriterState {
            total_matches: plus(searched.total_matches, found.total_matches),
            total_matched_lines: plus(searched.total_matched_lines, found.total_matched_lines),
            ..searched
        }
    } else {
        searched
    }
}

/// What is written of a file and what becomes of it.
pub open spec fn file_searched(
    style: Style,
    st: WriterState,
    read: FileRead,
    found: Found,
    file: Seq<char>,
    o: SearchOptionsView,
    explicit: bool,
) -> (WriterState, FileOutcome) {
    let binary = binary_at(read, o.text);
    if binary is Some && !explicit && !o.binary {
        (st, FileOutcome::Skipped)
    } else {
        let noted = file_noted(st, read, found, o);
        let zero = if found.is_empty && o.include_zero && (o.count || o.count_matches) && !o.quiet {
            style.count_written(noted, file, 0)
        } else {
            noted
        };
        if found.is_empty && (!o.passes_through() || binary is Some) {
            (zero, FileOutcome::NoMatch)
        } else if o.quiet || o.files_without_match {
            (zero, FileOutcome::Matched)
        } else if o.files_only {
            (style.file_written(zero, file), FileOutcome::Matched)
        } else if o.count || o.count_matches {
            (
                style.count_written(
                    zero,
                    file,
                    if o.count_matches {
                        found.match_count as nat
                    } else {
                        found.matched_lines as nat
                    },
                ),
                FileOutcome::Matched,
            )
        } else {
            let marked = match binary {
                Some(at) => style.binary_noted(zero, file, at),
                None => zero,
            };
            if binary is Some && !style.is_json() {
                (marked, FileOutcome::Matched)
            } else {
                (
                    emits_written(style, marked, read.fixups@, file, emit_views(found.emits@)),
                    if found.is_empty {
                        FileOutcome::NoMatch
                    } else {
                        FileOutcome::Matched
                    },
                )
            }
        }
    }
}

/// Whether a file is skipped without being searched: it is binary, was not
/// named, and binary files were not asked for.
pub fn skips_file(read: &FileRead, o: &SearchOptions, explicit: bool) -> (r: bool)
    ensures
        r == (binary_at(*read, o.text) is Some && !explicit && !o.binary),
{
    !o.text && read.first_nul.is_some() && !explicit && !o.binary
}

fn write_emit(emit: &Emit, file: &str, fixups: &LossyFixups, writer: &mut OutputWriter)
    requires
        old(writer).wf(),
        fixups.wf(),
        emit_fits(emit@, old(writer).style(), fixups@.len() > 0),
    ensures
        final(writer).wf(),
        final(writer).style() == old(writer).style(),
        final(writer)@ == emit_written(
            old(writer).style(),
            old(writer)@,
            fixups@,
            file@,
            emit@,
        ),
{
    match emit {
        Emit::Match {
            line_number,
            content,
            columns,
            spans,
            absolute_offset,
            line_offset,
            column_shifts,
            offset_shift,
            terminator_len,
        } => {
            writer.write_context_separator(file, *line_number);
            let (columns, absolute_offset) = to_source_positions(
                columns,
                column_shifts,
                *absolute_offset,
                *offset_shift,
                *line_offset,
                fixups,
            );
            let m = Match {
                file: owned(file),
                line_number: *line_number,
                content: content.clone(),
                columns,
                spans: crate::server_search::copy_spans(spans),
                absolute_offset,
                terminator_len: *terminator_len,
            };
            writer.write_match(&m);
        },
        Emit::Context { line_number, content, absolute_offset, terminator_len } => {
            writer.write_context_separator(file, *line_number);
            let ctx = ContextLine {
                file: owned(file),
                line_number: *line_number,
                content: content.clone(),
                absolute_offset: fixups.to_source_offset(*absolute_offset),
                terminator_len: *terminator_len,
            };
            writer.write_context_line(&ctx);
        },
    }
}

fn write_emits(emits: &Vec<Emit>, file: &str, fixups: &LossyFixups, writer: &mut OutputWriter)
    requires
        old(writer).wf(),
        fixups.wf(),
        emits_fit(emit_views(emits@), old(writer).style(), fixups@.len() > 0),
    ensures
        final(writer).wf(),
        final(writer).style() == old(writer).style(),
        final(writer)@ == emits_written(
            old(writer).style(),
            old(writer)@,
            fixups@,
            file@,
            emit_views(emits@),
        ),
{
    let ghost style = writer.style();
    let ghost start = writer@;
    let ghost all = emit_views(emits@);
    let mut i: usize = 0;
    assert(all.take(0) =~= Seq::<EmitView>::empty());
    while i < emits.len()
        invariant
            i <= emits@.len(),
            writer.wf(),
            fixups.wf(),
            writer.style() == style,
            all == emit_views(emits@),
            emits_fit(all, style, fixups@.len() > 0),
            writer@ == emits_written(style, start, fixups@, file@, all.take(i as int)),
        decreases emits@.len() - i,
    {
        assert(all.take(i + 1).drop_last() =~= all.take(i as int));
        assert(all.take(i + 1).last() == emits@[i as int]@);
        assert(all[i as int] == emits@[i as int]@);
        write_emit(&emits[i], file, fixups, writer);
        i += 1;
    }
    assert(all.take(all.len() as int) =~= all);
}

/// Reports what was found in a file. `explicit` says that the user named the
/// file: only then, or where they are asked for, do binary files surface.
pub fn search_decoded_file(
    read: &FileRead,
    found: &Found,
    file: &str,
    o: &SearchOptions,
    writer: &mut OutputWriter,
    explicit: bool,
) -> (outcome: FileOutcome)
    requires
        old(writer).wf(),
        read.fixups.wf(),
        emits_fit(emit_views(found.emits@), old(writer).style(), read.fixups@.len() > 0),
    ensures
        final(writer).wf(),
        final(writer).style() == old(writer).style(),
        (final(writer)@, outcome) == file_searched(
            old(writer).style(),
            old(writer)@,
            *read,
            *found,
            file@,
            o@,
            explicit,
        ),
{
    let binary: Option<usize> = if o.text {
        None
    } else {
        match read.first_nul {
            Some(at) => Some(read.fixups.to_source_offset(at)),
            None => None,
        }
    };
    if binary.is_some() && !explicit && !o.binary {
        return FileOutcome::Skipped;
    }
    let bytes: usize = match binary {
        Some(at) => at,
        None => read.fixups.to_source_offset(byte_len(read.text.as_str())),
    };
    writer.note_bytes_searched(bytes as u64);
    if o.stats {
        writer.note_matches(found.total_matches, found.total_matched_lines);
    }
    if found.is_empty {
        if o.include_zero && (o.count || o.count_matches) && !o.quiet {
            writer.write_count(file, 0);
        }
        if !o.effective_passthru() || binary.is_some() {
            return FileOutcome::NoMatch;
        }
    }
    if o.quiet || o.files_without_match {
        return FileOutcome::Matched;
    }
    if o.files_only {
        writer.write_file(file);
        return FileOutcome::Matched;
    }
    if o.count || o.count_matches {
        let n: usize = if o.count_matches {
            found.match_count
        } else {
            found.matched_lines
        };
        writer.write_count(file, n);
        return FileOutcome::Matched;
    }
    if let Some(at) = binary {
        writer.write_binary_note(file, at);
        if !writer.is_json() {
            return FileOutcome::Matched;
        }
    }
    write_emits(&found.emits, file, &read.fixups, writer);
    if found.is_empty {
        FileOutcome::NoMatch
    } else {
        FileOutcome::Matched
    }
}

/// What is written of a file and whether it is what was looked for: a file
/// with a match, or, where those are looked for, one without. A skipped file
/// is neither.
#[verifier::opaque]
pub open spec fn file_selected(
    style: Style,
    st: WriterState,
    read: FileRead,
    found: Found,
    file: Seq<char>,
    o: SearchOptionsView,
    explicit: bool,
) -> (WriterState, bool) {
    let (after, outcome) = file_searched(style, st, read, found, file, o, explicit);
    match outcome {
        FileOutcome::Matched => (after, !o.files_without_match),
        FileOutcome::NoMatch => if o.files_without_match {
            (
                if o.quiet {
                    after
                } else {
                    style.file_written(after, file)
                },
                true,
            )
        } else {
            (after, false)
        },
        FileOutcome::Skipped => (after, false),
    }
}

/// Reports what was found in a file; whether the file is what was looked for.
pub fn search_file(
    read: &FileRead,
    found: &Found,
    file: &str,
    o: &SearchOptions,
    writer: &mut OutputWriter,
    explicit: bool,
) -> (selected: bool)
    requires
        old(writer).wf(),
        read.fixups.wf(),
        emits_fit(emit_views(found.emits@), old(writer).style(), read.fixups@.len() > 0),
    ensures
        final(writer).wf(),
        final(writer).style() == old(writer).style(),
        (final(writer)@, selected) == file_selected(
            old(writer).style(),
            old(writer)@,
            *read,
            *found,
            file@,
            o@,
            explicit,
        ),
{
    proof {
        reveal(file_selected);
    }
    match search_decoded_file(read, found, file, o, writer, explicit) {
        FileOutcome::Matched => !o.files_without_match,
        FileOutcome::NoMatch => {
            if o.files_without_match {
                if !o.quiet {
                    writer.write_file(file);
                }
                true
            } else {
                false
            }
        },
        FileOutcome::Skipped => false,
    }
}

/// A binary file that was reached by walking and not asked for leaves no trace:
/// nothing is written of it, and it is neither a file with a match nor one
/// without.
pub proof fn law_skipped_files_never_surface(
    style: Style,
    st: WriterState,
    read: FileRead,
    found: Found,
    file: Seq<char>,
    o: SearchOptionsView,
)
    requires
        read.first_nul is Some,
        !o.text,
        !o.binary,
    ensures
        file_selected(style, st, read, found, file, o, false) == (st, false),
{
    reveal(file_selected);
}

} // verus!
