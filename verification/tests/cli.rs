//! The command line.
use tgrep::args::{
    parse_byte_size, parse_refresh, parse_size_limit, parse_sort, RefreshError, WatchMode,
};
use tgrep::cli::{
    memory_cap_bytes, Action, Cli, Command, IndexArgs, IndexStrategy, McpArgs, ResolvedArgs,
    ServeArgs,
};
use tgrep::options::RegexEngine;
use tgrep::output::ColorMode;
use tgrep::sort::{SortKey, SortMode};
use tgrep::targets::{
    hides_filenames, report_missing_path, AfterTarget, SearchRun, Searched, FAILED, FOUND,
    NOT_FOUND,
};

fn texts(items: &[&str]) -> Vec<String> {
    items.iter().map(|s| s.to_string()).collect()
}

fn cli() -> Cli {
    Cli {
        command: None,
        pattern: None,
        paths: Vec::new(),
        regexp: Vec::new(),
        pattern_file: None,
        ignore_case: false,
        case_sensitive: false,
        smart_case: false,
        fixed_strings: false,
        word_regexp: false,
        invert_match: false,
        multiline: false,
        multiline_dotall: false,
        files_only: false,
        files_without_match: false,
        count: false,
        only_matching: false,
        max_count: None,
        list_files: false,
        quiet: false,
        glob: Vec::new(),
        iglob: Vec::new(),
        glob_case_insensitive: false,
        file_type: Vec::new(),
        type_not: Vec::new(),
        type_add: Vec::new(),
        type_clear: Vec::new(),
        type_list: false,
        max_filesize: None,
        no_max_filesize: false,
        encoding: None,
        text: false,
        after_context: None,
        before_context: None,
        context: None,
        with_filename: false,
        no_filename: false,
        line_number: false,
        no_line_number: false,
        heading: false,
        no_heading: false,
        json: false,
        vimgrep: false,
        color: "auto".to_string(),
        null: false,
        trim: false,
        stats: false,
        no_index: false,
        index_path: None,
        hidden: false,
        no_ignore: false,
        follow: false,
        no_messages: false,
        unrestricted: 0,
        binary: false,
        line_regexp: false,
        pcre2: false,
        engine: "auto".to_string(),
        pcre2_version: false,
        no_unicode: false,
        regex_size_limit: None,
        dfa_size_limit: None,
        replace: None,
        passthru: false,
        stop_on_nonmatch: false,
        column: false,
        byte_offset: false,
        max_columns: None,
        max_columns_preview: false,
        count_matches: false,
        include_zero: false,
        pretty: false,
        context_separator: None,
        no_context_separator: false,
        field_match_separator: None,
        field_context_separator: None,
        path_separator: None,
        sort: None,
        sortr: None,
        sort_files: false,
        max_depth: None,
        one_file_system: false,
        ignore_file: Vec::new(),
        ignore_file_case_insensitive: false,
        no_ignore_dot: false,
        no_ignore_exclude: false,
        no_ignore_files: false,
        no_ignore_global: false,
        no_ignore_messages: false,
        no_ignore_parent: false,
        no_ignore_vcs: false,
        no_require_git: false,
        threads: None,
        line_buffered: false,
        debug: false,
        trace: false,
        search_zip: false,
    }
}

fn resolved(cli: &Cli) -> ResolvedArgs {
    cli.resolve(Ok(None)).ok().expect("nothing is wrong")
}

fn plan(cli: &Cli) -> Action {
    cli.plan(&cli.resolve(Ok(None)))
}

/// The choice of refresh that a list of flags with values makes.
fn refresh(args: &[&str]) -> Result<tgrep::args::Refresh, RefreshError> {
    let value = |flag: &str| {
        args.iter().position(|a| *a == flag).map(|i| args[i + 1])
    };
    parse_refresh(
        args.contains(&"--no-watch"),
        value("--watch-mode"),
        value("--poll-interval"),
        value("--watch-budget"),
    )
}

#[test]
fn refresh_defaults_and_explicit_modes() {
    for (args, expected_mode, expected_no_watch) in [
        (vec![], WatchMode::Auto, false),
        (vec!["--watch-mode", "auto"], WatchMode::Auto, false),
        (vec!["--watch-mode", "poll"], WatchMode::Poll, false),
        (vec!["--no-watch"], WatchMode::Auto, true),
    ] {
        let choice = refresh(&args).unwrap();
        assert_eq!(choice.no_watch, expected_no_watch);
        assert_eq!(choice.watch_mode, expected_mode);
        assert_eq!(choice.poll_interval, 120);
        assert_eq!(choice.watch_budget, 8192);
    }
}

#[test]
fn refresh_explicit_values_and_boundaries() {
    for (interval, budget) in [("1", "1"), ("120", "8192"), ("86400", "4294967295")] {
        let choice =
            refresh(&["--poll-interval", interval, "--watch-budget", budget]).unwrap();
        assert_eq!(choice.poll_interval, interval.parse::<u64>().unwrap());
        assert_eq!(choice.watch_budget, budget.parse::<u32>().unwrap());
    }
    assert!(refresh(&["--watch-mode", "auto", "--watch-budget", "8192"]).is_ok());
    assert!(refresh(&["--watch-mode", "poll", "--poll-interval", "1"]).is_ok());
    let capped = cli().serve_settings(
        &ServeArgs {
            path: ".".to_string(),
            refresh: refresh(&["--no-watch"]).unwrap(),
            max_memory_mb: None,
            max_cpu_percent: None,
            exclude: Vec::new(),
            auto_save_mutations: None,
            watcher_queue_cap: Some(1),
        },
        None,
        7,
    );
    assert_eq!(capped.watcher_queue_cap, Some(1));
    assert!(capped.refresh.no_watch);
    assert_eq!(capped.memory_cap_bytes, 7);
    assert_eq!(capped.cpu_percent, 50);
}

#[test]
fn refresh_explicit_conflicts_include_default_values() {
    for args in [
        vec!["--watch-mode", "auto"],
        vec!["--watch-mode", "poll"],
        vec!["--poll-interval", "120"],
        vec!["--poll-interval", "1"],
        vec!["--watch-budget", "8192"],
        vec!["--watch-budget", "1"],
    ] {
        for no_watch_first in [true, false] {
            let mut command: Vec<&str> = Vec::new();
            if no_watch_first {
                command.push("--no-watch");
            }
            command.extend(&args);
            if !no_watch_first {
                command.push("--no-watch");
            }
            let error = refresh(&command).err().expect("explicit flags conflict");
            assert_eq!(error, RefreshError::Disabled);
        }
    }
    for args in [
        ["--watch-mode", "poll", "--watch-budget", "8192"],
        ["--watch-budget", "1", "--watch-mode", "poll"],
    ] {
        let error = refresh(&args).err().expect("poll does not use native watches");
        assert_eq!(error, RefreshError::BudgetOfPolling);
        assert!(error.message().contains("--watch-budget"));
    }
}

#[test]
fn refresh_rejects_invalid_values() {
    for (flag, values) in [
        ("--watch-mode", vec!["native", "disabled", "AUTO", ""]),
        ("--poll-interval", vec!["0", "86401", "-1", "1.5", "bad"]),
        ("--watch-budget", vec!["0", "4294967296", "-1", "1.5", "bad"]),
    ] {
        for value in values {
            assert!(refresh(&[flag, value]).is_err(), "{flag}={value} should be rejected");
        }
    }
    assert_eq!(refresh(&["--watch-mode", "native"]).err(), Some(RefreshError::BadMode));
    assert_eq!(refresh(&["--poll-interval", "0"]).err(), Some(RefreshError::BadInterval));
    assert_eq!(refresh(&["--watch-budget", "0"]).err(), Some(RefreshError::BadBudget));
}

#[test]
fn sizes_take_suffixes() {
    assert_eq!(parse_byte_size("--max-filesize", "17"), Ok(17));
    assert_eq!(parse_byte_size("--max-filesize", " 2 k "), Ok(2048));
    assert_eq!(parse_byte_size("--max-filesize", "3M"), Ok(3 << 20));
    assert_eq!(parse_byte_size("--max-filesize", "1g"), Ok(1 << 30));
    assert_eq!(
        parse_byte_size("--max-filesize", " x "),
        Err("invalid --max-filesize value: x".to_string())
    );
    assert_eq!(
        parse_byte_size("--dfa-size-limit", "18446744073709551615K"),
        Err("--dfa-size-limit value is too large: 18446744073709551615K".to_string())
    );
    assert_eq!(parse_byte_size("f", ""), Err("invalid f value: ".to_string()));
    assert_eq!(parse_size_limit("--regex-size-limit", "1K"), Ok(1024));
}

#[test]
fn sort_criteria_are_parsed() {
    assert_eq!(parse_sort("none", true), Ok(None));
    assert_eq!(
        parse_sort("path", true),
        Ok(Some(SortMode { key: SortKey::Path, reverse: true }))
    );
    assert_eq!(
        parse_sort("size", false),
        Err("unrecognized sort criteria: size".to_string())
    );
    let mut c = cli();
    c.sort_files = true;
    assert_eq!(resolved(&c).sort, Some(SortMode { key: SortKey::Path, reverse: false }));
    c.sortr = Some("modified".to_string());
    assert_eq!(resolved(&c).sort, Some(SortMode { key: SortKey::Modified, reverse: true }));
    c.sort = Some("none".to_string());
    assert_eq!(resolved(&c).sort, None);
}

#[test]
fn size_limit_has_a_default() {
    let mut c = cli();
    assert_eq!(resolved(&c).max_filesize, Some(64 << 20));
    assert!(!resolved(&c).max_filesize_requested);
    c.max_filesize = Some("1K".to_string());
    assert_eq!(resolved(&c).max_filesize, Some(1024));
    assert!(resolved(&c).max_filesize_requested);
    c.no_max_filesize = true;
    assert_eq!(resolved(&c).max_filesize, None);
    assert!(resolved(&c).max_filesize_requested);
}

#[test]
fn bad_values_fail_before_anything_runs() {
    let mut c = cli();
    c.pattern = Some("foo".to_string());
    c.engine = "perl".to_string();
    assert!(matches!(plan(&c), Action::Fail(m) if m == "unrecognized regex engine: perl"));
    c.pcre2 = true;
    assert_eq!(resolved(&c).engine, RegexEngine::Pcre2);
    c.dfa_size_limit = Some("lots".to_string());
    assert!(matches!(plan(&c), Action::Fail(m) if m == "invalid --dfa-size-limit value: lots"));
    let mut c = cli();
    c.encoding = Some("klingon".to_string());
    let refused = c.resolve(Err("unknown encoding".to_string()));
    assert!(matches!(c.plan(&refused), Action::Fail(m) if m == "unknown encoding"));
    c.encoding = None;
    assert!(c.resolve(Err("unknown encoding".to_string())).is_ok());
}

#[test]
fn positional_arguments_are_paths_once_a_pattern_is_given() {
    let mut c = cli();
    c.pattern = Some("foo".to_string());
    c.paths = texts(&["src"]);
    assert!(matches!(plan(&c), Action::Search(p, paths) if p == "foo" && paths == ["src"]));
    c.regexp = texts(&["bar"]);
    assert!(matches!(plan(&c), Action::Search(p, paths) if p.is_empty() && paths == ["foo", "src"]));
    let mut c = cli();
    c.pattern_file = Some("patterns".to_string());
    assert!(matches!(plan(&c), Action::Search(p, paths) if p.is_empty() && paths.is_empty()));
    let mut c = cli();
    c.list_files = true;
    c.pattern = Some("src".to_string());
    assert!(matches!(plan(&c), Action::ListFiles(paths) if paths == ["src"]));
    assert!(matches!(plan(&cli()), Action::Usage));
    let mut c = cli();
    c.command = Some(Command::Search("foo".to_string(), texts(&["a", "b"])));
    assert!(matches!(plan(&c), Action::Search(p, paths) if p == "foo" && paths == ["a", "b"]));
}

#[test]
fn flags_that_answer_at_once_win() {
    let mut c = cli();
    c.search_zip = true;
    c.pcre2_version = true;
    c.engine = "perl".to_string();
    assert!(matches!(plan(&c), Action::Fail(m)
        if m == "-z/--search-zip is not supported; decompress the files first"));
    c.search_zip = false;
    assert!(matches!(plan(&c), Action::Print(m) if m.starts_with("fancy-regex")));
    c.type_list = true;
    assert!(matches!(plan(&c), Action::ListTypes));
}

#[test]
fn building_commands_refuse_flags_they_would_ignore() {
    let mut c = cli();
    c.command = Some(Command::Index(IndexArgs {
        path: ".".to_string(),
        exclude: Vec::new(),
        strategy: IndexStrategy::External,
        index_buffer_mb: None,
    }));
    c.hidden = true;
    c.threads = Some(4);
    assert!(matches!(plan(&c), Action::Run));
    c.follow = true;
    c.no_ignore_vcs = true;
    assert_eq!(c.unsupported_discovery_flags(), ["--follow", "--no-ignore-vcs"]);
    assert!(matches!(plan(&c), Action::Fail(m)
        if m == "`index` does not support --follow, --no-ignore-vcs; it would be ignored and \
                 the index would not match what you asked for"));
    c.command = Some(Command::Status(".".to_string()));
    assert!(matches!(plan(&c), Action::Run));
}

#[test]
fn index_takes_in_hidden_files() {
    let mut c = cli();
    c.unrestricted = 1;
    let settings = c.index_settings(
        &IndexArgs {
            path: "/repo".to_string(),
            exclude: texts(&["target"]),
            strategy: IndexStrategy::InMemory,
            index_buffer_mb: Some(64),
        },
        Some(9),
    );
    assert!(settings.include_hidden);
    assert!(settings.no_ignore);
    assert_eq!(settings.exclude_dirs, ["target"]);
    assert_eq!(settings.strategy, IndexStrategy::InMemory);
    assert_eq!(settings.max_file_size, Some(9));
    let options = c.mcp_options(
        &McpArgs {
            path: "/repo".to_string(),
            no_auto_index: true,
            exclude: Vec::new(),
            max_memory_mb: Some(2),
            max_cpu_percent: None,
        },
        Some(9),
        1,
        3,
    );
    assert!(!options.auto_index);
    assert_eq!(options.memory_cap_bytes, 2 << 20);
    assert_eq!(options.index_threads, 3);
}

#[test]
fn memory_budgets_saturate() {
    assert_eq!(memory_cap_bytes(Some(u64::MAX), 5), u64::MAX);
    assert_eq!(memory_cap_bytes(Some(3), 5), 3 << 20);
    assert_eq!(memory_cap_bytes(None, 5), 5);
}

#[test]
fn options_follow_from_flags() {
    let mut c = cli();
    c.json = true;
    c.unrestricted = 3;
    c.multiline_dotall = true;
    let o = c.build_search_opts("foo".to_string(), &resolved(&c), false);
    assert!(o.json && o.no_ignore && o.hidden && o.binary && o.multiline && !o.text);
    assert!(o.no_line_number);
    assert_eq!(o.pattern, "foo");
    assert_eq!(o.context_separator.as_deref(), Some("--"));
    assert_eq!(o.field_match_separator, ":");
    assert_eq!(o.field_context_separator, "-");
    assert!(!c.build_search_opts(String::new(), &resolved(&c), true).no_line_number);
    c.count = true;
    c.pretty = true;
    c.no_context_separator = true;
    c.no_ignore_files = true;
    c.ignore_file = texts(&["x"]);
    let o = c.build_search_opts(String::new(), &resolved(&c), false);
    assert!(!o.json);
    assert_eq!(o.heading, Some(true));
    assert_eq!(o.color, ColorMode::Always);
    assert!(!o.no_line_number);
    assert!(o.context_separator.is_none());
    assert!(o.ignore_files.is_empty());
    let mut c = cli();
    c.color = "purple".to_string();
    c.no_heading = true;
    c.debug = true;
    c.vimgrep = true;
    let o = c.build_search_opts(String::new(), &resolved(&c), false);
    assert_eq!(o.color, ColorMode::Auto);
    assert_eq!(o.heading, Some(false));
    assert!(o.stats && o.column && !o.no_line_number);
}

#[test]
fn names_of_files_are_hidden_for_one_file() {
    assert!(hides_filenames(false, false, false, 1, true));
    assert!(!hides_filenames(false, true, false, 1, true));
    assert!(!hides_filenames(false, false, true, 1, true));
    assert!(!hides_filenames(false, false, false, 2, true));
    assert!(!hides_filenames(false, false, false, 1, false));
    assert!(hides_filenames(true, true, false, 2, false));
}

#[test]
fn missing_paths_are_reported() {
    assert_eq!(
        report_missing_path("x", "No such file", false).as_deref(),
        Some("tgrep: x: IO error for operation on x: No such file")
    );
    assert_eq!(report_missing_path("x", "No such file", true), None);
}

fn code(quiet: bool, searched: &[Searched]) -> i32 {
    let mut run = SearchRun::new();
    for s in searched {
        match run.after_target(quiet, *s) {
            AfterTarget::Continue(next) => run = next,
            AfterTarget::Exit(code) => return code,
        }
    }
    run.exit_code(quiet)
}

#[test]
fn exit_codes_tell_matches_from_errors() {
    assert_eq!((FOUND, NOT_FOUND, FAILED), (0, 1, 2));
    assert_eq!(code(false, &[Searched::Done(true)]), 0);
    assert_eq!(code(false, &[Searched::Done(false)]), 1);
    assert_eq!(code(false, &[]), 1);
    assert_eq!(code(false, &[Searched::Done(true), Searched::Missing]), 2);
    assert_eq!(code(false, &[Searched::Failed, Searched::Done(true)]), 2);
    assert_eq!(code(true, &[Searched::Missing, Searched::Done(true)]), 0);
    assert_eq!(code(true, &[Searched::Missing, Searched::Done(false)]), 2);
    assert_eq!(code(true, &[Searched::Done(true), Searched::Failed]), 0);
}

#[test]
fn listings_fail_where_a_path_is_missing() {
    let run = SearchRun::new().after_listing(true);
    assert_eq!(run.listing_code(), FOUND);
    let run = run.after_listing(false).after_listing(true);
    assert_eq!(run.listing_code(), FAILED);
    assert_eq!(SearchRun::new().listing_code(), FOUND);
}
