//! Options of a search, what is found in files, and where searches are answered.
use tgrep::file_search::{
    search_decoded_file, search_file, skips_file, to_source_columns, to_source_positions, Emit,
    FileOutcome, FileRead, Found,
};
use tgrep::fixups::{LossyFixups, Repair};
use tgrep::listing::{
    select_listed, write_indexed_file_paths, write_listing, write_named_file, ListedPath,
};
use tgrep::local_search::{
    brute_force_search, check_index, choose_answer, choose_plan, filename_index_compatible,
    finish_local_search, index_stats_text, list_route, list_stats_text, lists_every_file,
    local_route, may_ask_server, plan_summary, scan_stats_text, search_files_in_turn,
    search_local_index, shows_warnings, takes_every_file, warn_missing_index, AnsweredBy, ChosenBy,
    IndexFacts, ListFacts, ListRoute, LocalRoute, LocalRun, PlanChoice, QueryPlan, RootFacts,
    SearchedFile,
};
use tgrep::meta::FileTime;
use tgrep::options::{new_writer, new_writer_to, RegexEngine, SearchOptions, TypeFilter};
use tgrep::output::OutputFormat;
use tgrep::paths::IndexScope;
use tgrep::selection::{
    exceeds_max_filesize, files_to_read, reads_named_file, select_candidates, walked_to_read,
    Candidate, FileFacts, WalkedFile,
};
use tgrep::sort::{SortKey, SortMode};

fn options() -> SearchOptions {
    SearchOptions {
        field_match_separator: ":".to_string(),
        field_context_separator: "-".to_string(),
        context_separator: Some("--".to_string()),
        ..Default::default()
    }
}

/// What a matcher for `needle` finds, as far as these tests need it.
fn find(content: &str) -> Found {
    let mut emits = Vec::new();
    let mut offset = 0;
    for (i, line) in content.split_inclusive('\n').enumerate() {
        if let Some(at) = line.find("needle") {
            let text = line.trim_end_matches('\n');
            emits.push(Emit::Match {
                line_number: i + 1,
                content: text.to_string(),
                columns: vec![at + 1],
                spans: vec![(at, at + 6)],
                absolute_offset: offset,
                line_offset: offset,
                column_shifts: Vec::new(),
                offset_shift: 0,
                terminator_len: line.len() - text.len(),
            });
        }
        offset += line.len();
    }
    let n = emits.len();
    Found {
        is_empty: n == 0,
        total_matches: n as u64,
        total_matched_lines: n as u64,
        match_count: n,
        matched_lines: n,
        emits,
    }
}

fn read(content: &str) -> FileRead {
    FileRead::decoded(content.to_string(), LossyFixups::default())
}

#[test]
fn stats_requests_match_detail_so_spans_are_available_to_count() {
    let mut opts = SearchOptions { stats: true, ..Default::default() };
    assert!(
        opts.wants_match_detail(false),
        "--stats must request spans, or the match total silently reads 0"
    );
    opts.stats = false;
    assert!(!opts.wants_match_detail(false));
}

#[test]
fn quiet_file_selection_distinguishes_nonmatching_and_skipped_files() {
    for (content, explicit, binary, matched, without_match) in [
        ("needle\n", false, false, true, false),
        ("other\n", false, false, false, true),
        ("", false, false, false, true),
        ("needle\0\n", false, false, false, false),
        ("other\0\n", false, false, false, false),
        ("needle\0\n", true, false, true, false),
        ("other\0\n", true, false, false, true),
        ("needle\0\n", false, true, true, false),
        ("other\0\n", false, true, false, true),
    ] {
        let file = FileRead {
            text: content.to_string(),
            fixups: LossyFixups::default(),
            first_nul: content.find('\0'),
        };
        let found = find(content);
        for files_without_match in [false, true] {
            let opts =
                SearchOptions { quiet: true, files_without_match, binary, ..Default::default() };
            let mut writer = new_writer(&opts, false);
            let selected = search_file(&file, &found, "file.txt", &opts, &mut writer, explicit);
            let expected = if files_without_match { without_match } else { matched };
            assert_eq!(
                selected, expected,
                "content={content:?}, explicit={explicit}, binary={binary}, \
                 files_without_match={files_without_match}"
            );
        }
    }
}

#[test]
fn matching_lines_are_printed_and_counted() {
    let opts = SearchOptions { stats: true, ..options() };
    let mut writer = new_writer_to(&opts);
    let content = "one\na needle\nthree\nneedle\n";
    let outcome =
        search_decoded_file(&read(content), &find(content), "f.txt", &opts, &mut writer, false);
    assert_eq!(outcome, FileOutcome::Matched);
    assert_eq!(writer.match_totals(), (2, 2));
    assert_eq!(writer.take_output().0, "f.txt:2:a needle\nf.txt:4:needle\n");
    let opts = SearchOptions { count: true, ..options() };
    let mut writer = new_writer_to(&opts);
    search_decoded_file(&read(content), &find(content), "f.txt", &opts, &mut writer, false);
    assert_eq!(writer.take_output().0, "f.txt:2\n");
    let opts = SearchOptions { files_only: true, ..options() };
    let mut writer = new_writer_to(&opts);
    search_decoded_file(&read(content), &find(content), "f.txt", &opts, &mut writer, false);
    assert_eq!(writer.take_output().0, "f.txt\n");
}

#[test]
fn binary_files_surface_only_when_asked_for() {
    let content = "needle\0\n";
    let opts = options();
    let mut writer = new_writer_to(&opts);
    assert!(skips_file(&read(content), &opts, false));
    assert!(!skips_file(&read(content), &opts, true));
    let outcome =
        search_decoded_file(&read(content), &find(content), "f", &opts, &mut writer, false);
    assert_eq!(outcome, FileOutcome::Skipped);
    assert_eq!(writer.take_output().0, "");
    let outcome =
        search_decoded_file(&read(content), &find(content), "f", &opts, &mut writer, true);
    assert_eq!(outcome, FileOutcome::Matched);
    let note = writer.take_output().0;
    assert!(note.contains("binary file matches"), "{note}");
    assert!(!note.contains("needle"), "{note}");
    let text = SearchOptions { text: true, ..options() };
    assert!(!skips_file(&read(content), &text, false));
}

#[test]
fn repaired_positions_are_mapped_to_the_source() {
    let fixups =
        LossyFixups::from_repairs(vec![Repair { at: 4, source_len: 1 }]).expect("in order");
    assert!(!fixups.is_empty());
    assert_eq!(fixups.to_source_offset(4), 4);
    assert_eq!(fixups.to_source_offset(7), 5);
    assert_eq!(fixups.to_source_offset(10), 8);
    assert_eq!(to_source_columns(&vec![1, 8, 11], 0, &fixups), [1, 6, 9]);
    let (columns, offset) = to_source_positions(&vec![11], &Vec::new(), 0, 0, 0, &fixups);
    assert_eq!((columns, offset), (vec![9], 0));
    let none = LossyFixups::default();
    assert_eq!(to_source_columns(&vec![1, 8], 3, &none), [1, 8]);
    assert!(LossyFixups::from_repairs(vec![Repair { at: 4, source_len: 4 }]).is_none());
    assert!(LossyFixups::from_repairs(vec![
        Repair { at: 4, source_len: 1 },
        Repair { at: 6, source_len: 1 },
    ])
    .is_none());
}

#[test]
fn files_are_searched_in_turn() {
    let files = |contents: &[&str]| -> Vec<SearchedFile> {
        contents
            .iter()
            .enumerate()
            .map(|(i, c)| SearchedFile {
                path: format!("f{i}"),
                read: read(c),
                found: find(c),
            })
            .collect()
    };
    let opts = options();
    let mut writer = new_writer_to(&opts);
    assert!(search_files_in_turn(&files(&["x\n", "needle\n", "needle\n"]), &opts, &mut writer, false));
    assert_eq!(writer.take_output().0, "f1:1:needle\nf2:1:needle\n");
    assert!(!search_files_in_turn(&files(&["x\n"]), &opts, &mut writer, false));
    let quiet = SearchOptions { quiet: true, stats: true, ..options() };
    let mut writer = new_writer_to(&quiet);
    assert!(search_files_in_turn(&files(&["needle\n", "needle\n"]), &quiet, &mut writer, false));
    assert_eq!(writer.match_totals(), (1, 1));
}

#[test]
fn smart_case_looks_for_capitals() {
    let opts = |pattern: &str| SearchOptions {
        pattern: pattern.to_string(),
        smart_case: true,
        ..Default::default()
    };
    assert!(opts("needle").effective_case_insensitive());
    assert!(!opts("Needle").effective_case_insensitive());
    assert!(!opts("Éa").effective_case_insensitive());
    assert!(opts("éa").effective_case_insensitive());
    let mut both = opts("Needle");
    both.case_insensitive = true;
    both.case_sensitive = true;
    assert!(both.effective_case_insensitive());
    let plain = SearchOptions::default();
    assert!(!plain.effective_case_insensitive());
}

#[test]
fn derived_options_follow_the_flags() {
    let opts = SearchOptions {
        passthru: true,
        multiline_dotall: true,
        context: Some(2),
        before_context: Some(5),
        engine: RegexEngine::Pcre2,
        text: true,
        ..Default::default()
    };
    assert!(opts.effective_passthru());
    assert!(opts.dotall());
    assert_eq!((opts.before_ctx(), opts.after_ctx()), (5, 2));
    let m = opts.match_options(false);
    assert!(m.passthru && !m.all_spans);
    assert_eq!((m.before_context, m.after_context), (5, 2));
    assert!(opts.matcher_config(true).case_insensitive);
    assert!(opts.matcher_config(true).engine == RegexEngine::Pcre2);
    assert!(opts.walk_options().search_binary);
    let counted = SearchOptions { passthru: true, count: true, ..Default::default() };
    assert!(!counted.effective_passthru());
    let quiet = SearchOptions { quiet: true, max_count: Some(9), ..Default::default() };
    assert_eq!(quiet.effective_max_count(), Some(1));
    let json = SearchOptions { only_matching: true, json: true, ..Default::default() };
    assert!(!json.effective_only_matching());
    assert!(json.wants_match_detail(false));
    assert!(SearchOptions { byte_offset: true, ..Default::default() }.wants_position_detail());
    assert_eq!(RegexEngine::from_str_opt("default"), Some(RegexEngine::Default));
    assert_eq!(RegexEngine::Auto.label(), "auto");
}

#[test]
fn patterns_come_from_everywhere() {
    let opts = SearchOptions {
        pattern: "a".to_string(),
        extra_patterns: vec!["b".to_string()],
        pattern_file: Some("file".to_string()),
        ..Default::default()
    };
    assert_eq!(opts.all_patterns(Some("c\nd\n")), ["a", "b", "c", "d"]);
    let none = SearchOptions::default();
    assert!(none.all_patterns(None).len() <= 1);
}

#[test]
fn types_are_selected_in_steps() {
    assert!(matches!(SearchOptions::default().type_filter(), TypeFilter::Everything));
    let opts = SearchOptions {
        types: vec!["rust".to_string()],
        type_add: vec!["web:*.html".to_string()],
        ..Default::default()
    };
    assert!(matches!(opts.type_filter(), TypeFilter::Selected { steps, types, types_not }
        if steps.len() == 1 && types == ["rust"] && types_not.is_empty()));
}

#[test]
fn output_follows_the_options() {
    let config = |o: SearchOptions| o.make_output_config();
    assert!(config(SearchOptions { json: true, ..options() }).format == OutputFormat::Json);
    assert!(config(SearchOptions { vimgrep: true, ..options() }).format == OutputFormat::Vimgrep);
    assert!(config(SearchOptions { count: true, ..options() }).is_count());
    assert!(
        config(SearchOptions { files_only: true, ..options() }).format == OutputFormat::FilesOnly
    );
}

const ROOT: RootFacts = RootFacts { is_file: false, has_index: true };

#[test]
fn searches_are_routed() {
    let opts = options();
    assert!(may_ask_server(&opts, &ROOT));
    assert_eq!(local_route(&opts, &ROOT), LocalRoute::Index);
    assert_eq!(
        local_route(&opts, &RootFacts { has_index: false, ..ROOT }),
        LocalRoute::ScanWithoutIndex
    );
    for bypassed in [
        SearchOptions { text: true, ..options() },
        SearchOptions { binary: true, ..options() },
        SearchOptions { no_ignore: true, ..options() },
        SearchOptions { no_index: true, ..options() },
        SearchOptions { encoding: Some("utf-16le".to_string()), ..options() },
        SearchOptions { glob: vec!["!a".to_string(), "*.rs".to_string()], ..options() },
        SearchOptions { iglob: vec!["*.rs".to_string()], ..options() },
    ] {
        assert!(!may_ask_server(&bypassed, &ROOT));
        assert_eq!(local_route(&bypassed, &ROOT), LocalRoute::Scan);
    }
    assert_eq!(local_route(&opts, &RootFacts { is_file: true, ..ROOT }), LocalRoute::Scan);
    let excluding = SearchOptions { glob: vec!["!*.rs".to_string()], ..options() };
    assert!(!excluding.has_includes());
    assert!(may_ask_server(&excluding, &ROOT));
    let without = SearchOptions { files_without_match: true, ..options() };
    assert!(!may_ask_server(&without, &ROOT));
    assert_eq!(local_route(&without, &ROOT), LocalRoute::Index);
}

const FACTS: IndexFacts = IndexFacts {
    complete: true,
    hidden_complete: true,
    current_format: true,
    has_visibility: true,
    covers_index: true,
    covers_root: true,
};

#[test]
fn unusable_indexes_are_scanned_around() {
    assert_eq!(check_index(&Ok(FACTS)), None);
    let warned = |facts: IndexFacts| check_index(&Ok(facts)).unwrap();
    assert!(warned(IndexFacts { complete: false, ..FACTS }).contains("hidden-file coverage"));
    assert!(warned(IndexFacts { current_format: false, ..FACTS }).contains("hidden-file coverage"));
    assert!(warned(IndexFacts { has_visibility: false, ..FACTS }).contains("unavailable"));
    assert!(warned(IndexFacts { covers_index: false, ..FACTS }).contains("differ"));
    assert_eq!(warned(IndexFacts { covers_root: false, ..FACTS }), "");
    assert_eq!(
        check_index(&Err("gone".to_string())).unwrap(),
        "warning: index coverage metadata unavailable (gone) - scanning filesystem"
    );
    assert!(warn_missing_index("/i", true, true).is_none());
    assert!(warn_missing_index("/i", true, false).unwrap().contains("--index-path /i"));
    assert!(shows_warnings(&options()));
    assert!(!shows_warnings(&SearchOptions { quiet: true, ..options() }));
}

#[test]
fn plans_narrow_what_they_can() {
    assert_eq!(choose_plan(&options(), true), PlanChoice::Patterns);
    assert_eq!(choose_plan(&options(), false), PlanChoice::Relaxed);
    let fixed = SearchOptions { fixed_string: true, ..options() };
    assert_eq!(choose_plan(&fixed, false), PlanChoice::Patterns);
    let all = SearchOptions { passthru: true, ..options() };
    assert_eq!(choose_plan(&all, true), PlanChoice::MatchAll);
    assert!(takes_every_file(&SearchOptions { invert_match: true, ..options() }, false));
    assert!(!takes_every_file(&options(), false));
    assert_eq!(plan_summary(&QueryPlan::MatchAll), "MatchAll (full scan)");
}

const PLAIN: FileFacts = FileFacts { time: None, passes: true, size: Some(5), readable: true };

fn candidate(id: u32, path: &str, facts: FileFacts) -> Candidate {
    Candidate { id, path: path.to_string(), visible: true, facts }
}

#[test]
fn candidates_are_scoped() {
    let candidates = vec![
        candidate(1, "src/a.rs", PLAIN),
        Candidate { visible: false, ..candidate(2, "src/.hid", PLAIN) },
        candidate(3, "other.rs", PLAIN),
        candidate(4, "src/deep/b.rs", PLAIN),
    ];
    let scope = IndexScope::Subtree("src/".to_string());
    let found = select_candidates(&candidates, &scope, "", Some(1));
    let found: Vec<(u32, &str)> = found.iter().map(|s| (s.id, s.path.as_str())).collect();
    assert_eq!(found, [(1, "a.rs")]);
}

#[test]
fn an_indexed_search_reads_what_is_left() {
    let at = |seconds: i64| FileFacts { time: Some(FileTime { seconds, nanos: 0 }), ..PLAIN };
    let candidates = vec![
        candidate(1, "src/late.rs", at(9)),
        candidate(2, "src/early.rs", at(3)),
        candidate(3, "src/no.txt", FileFacts { passes: false, ..at(1) }),
        candidate(4, "src/big.rs", FileFacts { size: Some(11), ..at(2) }),
        candidate(5, "src/gone.rs", FileFacts { readable: false, ..PLAIN }),
        candidate(6, "lib.rs", at(0)),
    ];
    let scope = IndexScope::Subtree("src/".to_string());
    let sort = Some(SortMode { key: SortKey::Modified, reverse: false });
    let limited = SearchOptions { max_filesize: Some(10), sort, ..options() };
    let read = files_to_read(&candidates, &scope, "", &limited);
    assert_eq!(read.files, ["early.rs", "late.rs"]);
    assert_eq!(read.candidates, 5);
    let unsorted = files_to_read(&candidates, &scope, "", &options());
    assert_eq!(unsorted.files, ["late.rs", "early.rs", "big.rs"]);
    let named = IndexScope::File("src/big.rs".to_string());
    let read = files_to_read(&candidates, &named, "./big.rs", &limited);
    assert_eq!(read.files, ["./big.rs"], "a named file escapes a limit that nobody asked for");
}

#[test]
fn a_scan_reads_what_the_walk_found() {
    let walked = |path: &str, below: Option<&str>, facts: FileFacts| WalkedFile {
        path: path.to_string(),
        below: below.map(str::to_string),
        facts,
    };
    let files = || {
        vec![
            walked(r"C:\r\src\b.rs", Some(r"src\b.rs"), PLAIN),
            walked(r"C:\r\src.rs", Some("src.rs"), PLAIN),
            walked(r"C:\r\no.txt", Some("no.txt"), FileFacts { passes: false, ..PLAIN }),
            walked(r"C:\r\gone.rs", Some("gone.rs"), FileFacts { readable: false, ..PLAIN }),
            walked(r"D:\x.rs", None, PLAIN),
        ]
    };
    assert_eq!(walked_to_read(files(), None, '\\'), ["src/b.rs", "src.rs", "D:/x.rs"]);
    let sort = Some(SortMode { key: SortKey::Path, reverse: true });
    assert_eq!(walked_to_read(files(), sort, '\\'), ["D:/x.rs", "src.rs", "src/b.rs"]);
    let asked =
        SearchOptions { max_filesize: Some(10), max_filesize_requested: true, ..options() };
    assert!(reads_named_file(true, Some(10), &asked));
    assert!(!reads_named_file(true, Some(11), &asked));
    assert!(!reads_named_file(false, Some(1), &asked));
}

#[test]
fn named_files_are_exempt_from_an_inherited_limit() {
    let inherited = SearchOptions { max_filesize: Some(10), ..options() };
    assert!(exceeds_max_filesize(Some(11), &inherited, false));
    assert!(!exceeds_max_filesize(Some(10), &inherited, false));
    assert!(!exceeds_max_filesize(Some(11), &inherited, true));
    assert!(!exceeds_max_filesize(None, &inherited, false));
    let asked = SearchOptions { max_filesize_requested: true, ..inherited };
    assert!(exceeds_max_filesize(Some(11), &asked, true));
}

#[test]
fn listings_are_routed_and_sorted() {
    let facts = ListFacts {
        is_file: false,
        server_listed: true,
        index_listed: true,
    };
    assert!(filename_index_compatible(&options()));
    assert_eq!(list_route(&options(), &facts), ListRoute::Server);
    assert_eq!(
        list_route(&options(), &ListFacts { server_listed: false, ..facts }),
        ListRoute::Index
    );
    let follow = SearchOptions { follow: true, ..options() };
    assert!(!filename_index_compatible(&follow));
    assert_eq!(list_route(&follow, &facts), ListRoute::Walk);
    assert_eq!(list_route(&options(), &ListFacts { is_file: true, ..facts }), ListRoute::File);
    assert!(lists_every_file(&FACTS, true));

    let listed = |path: &str, visible: bool| ListedPath {
        path: path.to_string(),
        visible,
        passes: true,
        time: None,
    };
    let paths = vec![
        listed("src/b.rs", true),
        listed("src/a.rs", true),
        listed("src/b.rs", true),
        listed("src/.h", false),
        ListedPath { passes: false, ..listed("src/c.txt", true) },
        listed("x.rs", true),
    ];
    let scope = IndexScope::Subtree("src/".to_string());
    let (files, times) = select_listed(&paths, &scope, "", None);
    assert_eq!(files, ["b.rs", "a.rs"]);
    assert_eq!(times, [None, None]);
    let mut writer = new_writer_to(&options());
    let sort = Some(SortMode { key: SortKey::Path, reverse: false });
    write_listing(files, sort, &times, &mut writer);
    assert_eq!(writer.take_output().0, "a.rs\nb.rs\n");
}

#[test]
fn indexed_files_are_listed_in_order() {
    let at = |path: &str, seconds: i64| ListedPath {
        path: path.to_string(),
        visible: true,
        passes: true,
        time: Some(FileTime { seconds, nanos: 0 }),
    };
    let paths = vec![
        at("late.rs", 9),
        ListedPath { passes: false, ..at("first.txt", 1) },
        at("early.rs", 3),
        at("late.rs", 2),
        at("deep/x.rs", 4),
    ];
    let listed = |o: &SearchOptions| {
        let mut writer = new_writer_to(o);
        write_indexed_file_paths(&paths, &IndexScope::Whole, "", o, &mut writer);
        writer.take_output().0
    };
    let shallow = SearchOptions { max_depth: Some(1), ..options() };
    assert_eq!(listed(&shallow), "late.rs\nearly.rs\n");
    let sort = Some(SortMode { key: SortKey::Modified, reverse: false });
    let sorted = SearchOptions { sort, ..options() };
    assert_eq!(listed(&sorted), "early.rs\ndeep/x.rs\nlate.rs\n");

    let mut writer = new_writer_to(&options());
    write_named_file("no.txt", false, &mut writer);
    write_named_file("yes.rs", true, &mut writer);
    assert_eq!(writer.take_output().0, "yes.rs\n");
}

#[test]
fn totals_are_printed() {
    assert_eq!(
        index_stats_text(&QueryPlan::MatchAll, 3, 9, "1.5", 4, 2),
        "Query plan: MatchAll (full scan) (candidates: 3/9)\n\
         Search completed in 1.5ms: 4 matches (2 matched lines)\n"
    );
    assert!(scan_stats_text(None, "2.0", 1, 1).contains("(1 file)"));
    assert!(scan_stats_text(Some(7), "2.0", 1, 1).contains("(7 files)"));
    assert!(list_stats_text(ListRoute::Walk, "0.1").contains("0.1"));
}

#[test]
fn local_searches_report_their_totals() {
    let content = "needle\nneedle\n";
    let run = |by: ChosenBy| LocalRun {
        files: vec![SearchedFile {
            path: "f".to_string(),
            read: read(content),
            found: find(content),
        }],
        by,
        explicit: false,
    };
    let opts = SearchOptions { stats: true, count: true, ..options() };
    let mut writer = new_writer_to(&opts);
    let scanned = run(ChosenBy::Scan(Some(1)));
    let done = finish_local_search(&scanned, &opts, "0.5", &mut writer);
    assert!(done.had_matches);
    assert_eq!(
        done.stats.as_deref(),
        Some("Brute-force search completed in 0.5ms (1 files): 2 matches (2 matched lines)\n")
    );
    assert_eq!(writer.take_output().0, "f:2\n");
    let quiet = SearchOptions { quiet: true, ..options() };
    let mut writer = new_writer_to(&quiet);
    let by_index = run(ChosenBy::Index(QueryPlan::MatchAll, 1, 1));
    let done = finish_local_search(&by_index, &quiet, "0.5", &mut writer);
    assert!(done.had_matches && done.stats.is_none());
    assert_eq!(writer.take_output().0, "");
}

#[test]
fn refused_indexes_are_answered_by_the_scan() {
    let run = |content: &str, by: ChosenBy| LocalRun {
        files: vec![SearchedFile {
            path: "f".to_string(),
            read: read(content),
            found: find(content),
        }],
        by,
        explicit: false,
    };
    let indexed = run("nothing\n", ChosenBy::Index(QueryPlan::MatchAll, 1, 9));
    let scanned = run("needle\n", ChosenBy::Scan(Some(1)));
    let opts = SearchOptions { stats: true, ..options() };
    let mut alone = new_writer_to(&opts);
    let expected = brute_force_search(&scanned, &opts, "0.5", &mut alone);
    let output = alone.take_output().0;
    for meta in [
        Err("gone".to_string()),
        Ok(IndexFacts { complete: false, ..FACTS }),
        Ok(IndexFacts { hidden_complete: false, ..FACTS }),
        Ok(IndexFacts { current_format: false, ..FACTS }),
    ] {
        assert_eq!(choose_answer(&meta), AnsweredBy::Scan);
        let mut writer = new_writer_to(&opts);
        let done = search_local_index(&meta, &indexed, &scanned, &opts, "0.5", &mut writer);
        assert_eq!(done.had_matches, expected.had_matches);
        assert_eq!(done.stats, expected.stats);
        assert_eq!(writer.take_output().0, output);
    }
    assert_eq!(choose_answer(&Ok(FACTS)), AnsweredBy::Index);
    let mut writer = new_writer_to(&opts);
    let done = search_local_index(&Ok(FACTS), &indexed, &scanned, &opts, "0.5", &mut writer);
    assert!(!done.had_matches);
    assert!(done.stats.unwrap().contains("candidates: 1/9"));
}
