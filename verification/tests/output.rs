//! What is printed.
use tgrep::clock::Elapsed;
use tgrep::json::{parse, Json};
use tgrep::output::{
    ColorMode, ContextLine, Match, OutputConfig, OutputFormat, OutputWriter, PathDisplay,
};

fn config(format: OutputFormat) -> OutputConfig {
    OutputConfig { format, ..Default::default() }
}

fn a_match(line_number: usize, content: &str, spans: &[(usize, usize)]) -> Match {
    Match {
        file: "src/a.rs".to_string(),
        line_number,
        content: content.to_string(),
        columns: spans.iter().map(|(start, _)| start + 1).collect(),
        spans: spans.to_vec(),
        absolute_offset: 10,
        terminator_len: 1,
    }
}

fn context(line_number: usize, content: &str) -> ContextLine {
    ContextLine {
        file: "src/a.rs".to_string(),
        line_number,
        content: content.to_string(),
        absolute_offset: 0,
        terminator_len: 1,
    }
}

fn events(text: &str) -> Vec<Json> {
    text.lines().map(|line| parse(line).unwrap()).collect()
}

#[test]
fn flat_output_names_every_line() {
    let mut writer = OutputWriter::with_sink(config(OutputFormat::Flat));
    writer.write_match(&a_match(3, "a needle", &[(2, 8)]));
    writer.write_context_line(&context(4, "after"));
    let (out, _) = writer.take_output();
    assert_eq!(out, "src/a.rs:3:a needle\nsrc/a.rs-4-after\n");
    assert_eq!(writer.take_output().0, "");
}

#[test]
fn headings_group_matches() {
    let mut grouped = config(OutputFormat::Heading);
    grouped.heading = Some(true);
    let mut writer = OutputWriter::with_sink(grouped);
    writer.write_match(&a_match(3, "x", &[(0, 1)]));
    writer.write_match(&a_match(9, "x", &[(0, 1)]));
    assert_eq!(writer.take_output().0, "src/a.rs\n3:x\n9:x\n");
}

#[test]
fn blocks_of_context_are_separated() {
    let mut separated = config(OutputFormat::Flat);
    separated.context = true;
    let mut writer = OutputWriter::with_sink(separated);
    for line in [1, 2, 9] {
        writer.write_context_separator("src/a.rs", line);
        writer.write_context_line(&context(line, "x"));
    }
    assert_eq!(
        writer.take_output().0,
        "src/a.rs-1-x\nsrc/a.rs-2-x\n--\nsrc/a.rs-9-x\n"
    );
}

#[test]
fn columns_and_offsets_are_printed() {
    let mut detailed = config(OutputFormat::Flat);
    detailed.column = true;
    detailed.byte_offset = true;
    let mut writer = OutputWriter::with_sink(detailed);
    writer.write_match(&a_match(3, "a needle", &[(2, 8)]));
    assert_eq!(writer.take_output().0, "src/a.rs:3:3:10:a needle\n");
    let mut writer = OutputWriter::with_sink(config(OutputFormat::Vimgrep));
    writer.write_match(&a_match(3, "a needle", &[(2, 8)]));
    assert!(writer.take_output().0.starts_with("src/a.rs:3:3:"));
}

#[test]
fn colors_surround_matches() {
    let mut colored = config(OutputFormat::Flat);
    colored.color = ColorMode::Always;
    let mut writer = OutputWriter::with_sink(colored);
    writer.write_match(&a_match(3, "a needle", &[(2, 8)]));
    let (out, _) = writer.take_output();
    assert!(out.contains("\u{1b}["), "{out:?}");
    assert!(out.contains("needle\u{1b}[0m"), "{out:?}");
    assert!(ColorMode::Auto.is_enabled(true));
    assert!(!ColorMode::Auto.is_enabled(false));
    assert!(!ColorMode::Never.is_enabled(true));
    assert_eq!(ColorMode::from_str_opt("never"), Some(ColorMode::Never));
    assert_eq!(ColorMode::from_str_opt("ansi"), None);
}

#[test]
fn long_lines_are_left_out_or_previewed() {
    let mut narrow = config(OutputFormat::Flat);
    narrow.max_columns = Some(5);
    let mut writer = OutputWriter::with_sink(narrow);
    writer.write_match(&a_match(3, "a needle", &[(2, 8)]));
    let (out, _) = writer.take_output();
    assert!(!out.contains("a needle"), "{out}");
    let mut preview = config(OutputFormat::Flat);
    preview.max_columns = Some(5);
    preview.max_columns_preview = true;
    let mut writer = OutputWriter::with_sink(preview);
    writer.write_match(&a_match(3, "a needle", &[(2, 8)]));
    let (out, _) = writer.take_output();
    assert!(out.contains("a nee") && !out.contains("a needle"), "{out}");
}

#[test]
fn names_and_counts_are_printed() {
    let mut writer = OutputWriter::with_sink(config(OutputFormat::FilesOnly));
    writer.write_file("a.rs");
    assert_eq!(writer.take_output().0, "a.rs\n");
    let mut nul = config(OutputFormat::FilesOnly);
    nul.null = true;
    let mut writer = OutputWriter::with_sink(nul);
    writer.write_file("a.rs");
    assert_eq!(writer.take_output().0, "a.rs\0");
    let mut writer = OutputWriter::with_sink(config(OutputFormat::Count));
    writer.write_count("a.rs", 7);
    assert_eq!(writer.take_output().0, "a.rs:7\n");
    let mut bare = config(OutputFormat::Count);
    bare.no_filename = true;
    let mut writer = OutputWriter::with_sink(bare);
    writer.write_count("a.rs", 7);
    assert_eq!(writer.take_output().0, "7\n");
}

#[test]
fn paths_are_printed_below_what_was_typed() {
    let mut writer = OutputWriter::with_sink(config(OutputFormat::FilesOnly));
    writer.set_path_display(PathDisplay::Prefix("./".to_string()));
    writer.write_file("a.rs");
    assert_eq!(writer.take_output().0, "./a.rs\n");
    writer.set_path_display(PathDisplay::Exact("x/../y.rs".to_string()));
    writer.write_file("ignored");
    assert_eq!(writer.take_output().0, "x/../y.rs\n");
    let mut other = config(OutputFormat::FilesOnly);
    other.path_separator = Some("!".to_string());
    let mut writer = OutputWriter::with_sink(other);
    writer.write_file("a/b.rs");
    assert_eq!(writer.take_output().0, "a!b.rs\n");
}

#[test]
fn separators_are_those_of_the_platform() {
    let mut writer = OutputWriter::with_sink(config(OutputFormat::FilesOnly));
    writer.write_file("a/b.rs");
    let expected = format!("a{}b.rs\n", std::path::MAIN_SEPARATOR);
    assert_eq!(writer.take_output().0, expected);
}

#[test]
fn trimmed_lines_keep_their_matches() {
    let mut trimmed = config(OutputFormat::Flat);
    trimmed.trim = true;
    let mut writer = OutputWriter::with_sink(trimmed);
    writer.write_match(&a_match(3, "   needle  ", &[(3, 9)]));
    let (out, _) = writer.take_output();
    assert!(out.starts_with("src/a.rs:3:needle"), "{out:?}");
}

#[test]
fn json_output_is_a_stream_of_events() {
    let mut writer = OutputWriter::with_sink(config(OutputFormat::Json));
    assert!(writer.is_json());
    writer.note_bytes_searched(64);
    writer.set_time(Elapsed { secs: 0, nanos: 1_500_000 });
    writer.write_match(&a_match(3, "a needle", &[(2, 8)]));
    writer.write_context_line(&context(4, "after"));
    writer.flush();
    writer.finish();
    let (out, _) = writer.take_output();
    let all = events(&out);
    let kinds: Vec<&str> = all.iter().map(|e| e.get_str("type").unwrap()).collect();
    assert_eq!(kinds, ["begin", "match", "context", "end", "summary"]);
    let data = all[1].get("data").unwrap();
    assert_eq!(data.get("lines").unwrap().get_str("text"), Some("a needle\n"));
    assert_eq!(data.get_u64("line_number"), Some(3));
    let sub = &data.get_list("submatches").unwrap()[0];
    assert_eq!((sub.get_u64("start"), sub.get_u64("end")), (Some(2), Some(8)));
    assert_eq!(sub.get("match").unwrap().get_str("text"), Some("needle"));
    let end = all[3].get("data").unwrap();
    assert_eq!(end.get("stats").unwrap().get_u64("matches"), Some(1));
    assert_eq!(end.get("stats").unwrap().get_u64("bytes_searched"), Some(64));
    let total = all[4].get("data").unwrap();
    assert_eq!(total.get("stats").unwrap().get_u64("searches_with_match"), Some(1));
    assert_eq!(
        total.get("elapsed_total").unwrap().get_str("human"),
        Some("0.001500s")
    );
}

#[test]
fn binary_files_are_noted() {
    let mut writer = OutputWriter::with_sink(config(OutputFormat::Flat));
    writer.write_binary_note("a.bin", 7);
    let (out, _) = writer.take_output();
    assert!(out.contains("a.bin") && out.contains("offset 7"), "{out}");
}

#[test]
fn totals_add_up_and_start_over() {
    let mut writer = OutputWriter::with_sink(config(OutputFormat::Flat));
    writer.note_matches(3, 2);
    writer.note_matches(1, 1);
    assert_eq!(writer.match_totals(), (4, 3));
    writer.reset_match_totals();
    assert_eq!(writer.match_totals(), (0, 0));
}

#[test]
fn elapsed_time_is_counted_and_printed() {
    let start = Elapsed { secs: 1, nanos: 900_000_000 };
    let end = Elapsed { secs: 3, nanos: 100_000_000 };
    let took = end.since(start);
    assert_eq!((took.secs, took.nanos), (1, 200_000_000));
    assert_eq!(took.as_millis(), 1200);
    assert_eq!(took.in_seconds(6), "1.200000");
    assert_eq!(took.in_seconds(1), "1.2");
    assert_eq!(start.since(end).as_millis(), 0);
}

#[test]
fn colors_leave_the_text_alone() {
    let mut colored = config(OutputFormat::Flat);
    colored.color = ColorMode::Always;
    colored.no_filename = true;
    colored.no_line_number = true;
    let mut writer = OutputWriter::with_sink(colored);
    let content = "é needle ü needle";
    writer.write_match(&a_match(3, content, &[(3, 9), (1, 4), (13, 99)]));
    let (out, _) = writer.take_output();
    let bare = out.replace("\u{1b}[1;31m", "").replace("\u{1b}[0m", "");
    assert_eq!(bare, format!("{content}\n"));
    assert!(out.len() > bare.len());
}

#[test]
fn flushing_closes_a_file_once() {
    let mut writer = OutputWriter::with_sink(config(OutputFormat::Json));
    writer.write_match(&a_match(3, "a needle", &[(2, 8)]));
    writer.flush();
    let first = writer.take_output().0;
    assert_eq!(first.matches("\"type\":\"end\"").count(), 1);
    writer.flush();
    assert_eq!(writer.take_output().0, "");
    writer.finish();
    assert_eq!(events(&writer.take_output().0).len(), 1);
}

#[test]
fn output_only_grows() {
    let mut whole = OutputWriter::with_sink(config(OutputFormat::Flat));
    let mut parts = OutputWriter::with_sink(config(OutputFormat::Flat));
    let mut taken = String::new();
    for line in 1..4 {
        whole.write_match(&a_match(line, "x", &[(0, 1)]));
        parts.write_match(&a_match(line, "x", &[(0, 1)]));
        taken += &parts.take_output().0;
    }
    assert_eq!(whole.take_output().0, taken);
}

#[test]
fn json_spans_follow_trimming() {
    let mut trimmed = config(OutputFormat::Json);
    trimmed.trim = true;
    let mut writer = OutputWriter::with_sink(trimmed);
    writer.write_match(&a_match(3, "  needle ", &[(2, 8), (8, 30)]));
    writer.flush();
    let all = events(&writer.take_output().0);
    let data = all[1].get("data").unwrap();
    assert_eq!(data.get("lines").unwrap().get_str("text"), Some("needle\n"));
    let subs = data.get_list("submatches").unwrap();
    assert_eq!(subs.len(), 1);
    assert_eq!((subs[0].get_u64("start"), subs[0].get_u64("end")), (Some(0), Some(6)));
}

#[test]
fn sinks_have_no_colors_or_headings() {
    for format in [OutputFormat::Heading, OutputFormat::Flat, OutputFormat::Vimgrep, OutputFormat::Json] {
        let is_json = format == OutputFormat::Json;
        let vimgrep = format == OutputFormat::Vimgrep;
        let mut plain = config(format);
        plain.color = ColorMode::Auto;
        plain.heading = None;
        plain.context = true;
        let mut writer = OutputWriter::with_sink(plain);
        writer.write_match(&a_match(3, "a needle", &[(2, 8)]));
        writer.write_context_separator("src/a.rs", 9);
        writer.write_context_line(&context(9, "after"));
        writer.write_binary_note("src/b.bin", 4);
        writer.flush();
        writer.finish();
        let (out, _) = writer.take_output();
        assert!(!out.contains('\u{1b}'), "{out:?}");
        if !is_json && !vimgrep {
            assert!(out.starts_with("src/a.rs:3:a needle\n"), "{out:?}");
        }
    }
    let mut writer = OutputWriter::with_sink(config(OutputFormat::Json));
    writer.write_match(&a_match(3, "\u{1b}[1mneedle", &[(4, 10)]));
    writer.flush();
    assert!(!writer.take_output().0.contains('\u{1b}'));
}
