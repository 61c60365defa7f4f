//! The messages of a session.
use tgrep::answers::{count_matches, index_status, search, search_files};
use tgrep::events::{parse_events, Budget};
use tgrep::json::{parse, print, Json};
use tgrep::mcp::{
    answer_call, handle_message, is_blank, known_versions, reply_line, Step, Tool,
};
use tgrep::output::PathDisplay;
use tgrep::query::{plan_count, plan_files, plan_search, required_pattern, wait_seconds};
use tgrep::state::{
    IndexReadiness, IndexStatus, McpOptions, McpState, MetaCoverage, ServerOrigin, StartAction,
    WaitStep,
};

fn options() -> McpOptions {
    McpOptions {
        auto_index: false,
        exclude_dirs: Vec::new(),
        no_ignore: false,
        no_require_git: false,
        max_file_size: None,
        memory_cap_bytes: 0,
        index_threads: 1,
    }
}

fn state() -> McpState {
    McpState::new(
        "repo",
        Ok("/work/repo".to_string()),
        true,
        '/',
        None,
        "/work/repo/.tgrep".to_string(),
        options(),
    )
    .ok()
    .unwrap()
}

fn scanning() -> IndexStatus {
    state().index_status(None, None)
}

fn args(text: &str) -> Json {
    parse(text).unwrap()
}

/// Sends a request and gives what is answered at once.
fn request(id: u64, method: &str, params: &str) -> Json {
    let line = format!(
        r#"{{"jsonrpc": "2.0", "id": {id}, "method": "{method}", "params": {params}}}"#
    );
    match handle_message(&line, "1.2.3") {
        Step::Reply(response) => {
            assert_eq!(response.get_u64("id"), Some(id), "response id must match request");
            assert_eq!(response.get_str("jsonrpc"), Some("2.0"));
            response
        }
        _ => panic!("an answer"),
    }
}

fn result(response: &Json) -> &Json {
    response.get("result").expect("a result")
}

fn text_of(result: &Json) -> &str {
    result.get_list("content").unwrap()[0].get_str("text").unwrap()
}

/// The JSON events of a search of three files.
fn found() -> String {
    let line = |path: &str, n: u64, text: &str, column: u64| {
        format!(
            "{{\"type\":\"begin\",\"data\":{{\"path\":{{\"text\":\"{path}\"}}}}}}\n\
             {{\"type\":\"match\",\"data\":{{\"path\":{{\"text\":\"{path}\"}},\"lines\":{{\"text\":\"{text}\\n\"}},\
             \"line_number\":{n},\"absolute_offset\":0,\"submatches\":[{{\"match\":{{\"text\":\"needle\"}},\
             \"start\":{column},\"end\":{}}}]}}}}\n\
             {{\"type\":\"end\",\"data\":{{\"path\":{{\"text\":\"{path}\"}},\"stats\":{{\"matched_lines\":1,\"matches\":1}}}}}}\n",
            column + 6
        )
    };
    line("src/main.rs", 2, "    needle();", 4)
        + &line("src/lib.rs", 1, "pub fn needle() {}", 7)
        + &line("notes.md", 1, "needle appears here too", 0)
}

fn budget(max_results: usize) -> Budget {
    Budget { max_results, max_per_file: 10, context: 0 }
}

#[test]
fn handshake_reports_tools_and_protocol_version() {
    let opened = request(1, "initialize", r#"{"protocolVersion": "2025-11-25"}"#);
    assert_eq!(result(&opened).get_str("protocolVersion"), Some("2025-11-25"));
    assert_eq!(
        result(&opened).get("serverInfo").unwrap().get_str("version"),
        Some("1.2.3")
    );
    assert!(result(&opened).get_str("instructions").unwrap().starts_with("tgrep serves one"));

    let tools = request(2, "tools/list", "{}");
    let tools = result(&tools).get_list("tools").expect("tools array");
    let names: Vec<&str> =
        tools.iter().map(|tool| tool.get_str("name").expect("tool name")).collect();
    for expected in [
        "search",
        "count_matches",
        "search_files",
        "index_status",
        "snapshot_create",
        "snapshot_list",
        "snapshot_diff",
        "snapshot_delete",
    ] {
        assert!(names.contains(&expected), "missing tool {expected}");
        assert!(Tool::named(expected).is_some());
    }
    assert_eq!(names.len(), 8);

    for tool in tools {
        let schema = tool.get("inputSchema").unwrap();
        assert_eq!(schema.get_str("type"), Some("object"));
    }
    let search = tools[0].get("inputSchema").unwrap();
    let properties = search.get("properties").unwrap();
    assert_eq!(properties.get("max_results").unwrap().get_u64("default"), Some(60));
    assert_eq!(properties.get("wait_seconds").unwrap().get_u64("maximum"), Some(600));
    assert_eq!(properties.get("case").unwrap().get_list("enum").unwrap().len(), 3);
    assert_eq!(search.get_list("required").unwrap()[0].as_str(), Some("pattern"));

    let ping = request(3, "ping", "{}");
    assert_eq!(print(result(&ping)), "{}");
}

#[test]
fn unknown_protocol_version_is_answered_with_a_known_one() {
    let response =
        request(1, "initialize", r#"{"protocolVersion": "1999-01-01", "capabilities": {}}"#);
    assert_eq!(result(&response).get_str("protocolVersion"), Some("2025-11-25"));
    assert_eq!(
        result(&response).get("serverInfo").unwrap().get_str("name"),
        Some("tgrep")
    );
    for known in known_versions() {
        let response =
            request(1, "initialize", &format!(r#"{{"protocolVersion": "{known}"}}"#));
        assert_eq!(result(&response).get_str("protocolVersion"), Some(known));
    }
}

#[test]
fn unknown_method_is_a_protocol_error_but_an_unknown_tool_is_not() {
    let response = request(1, "resources/list", "{}");
    assert_eq!(response.get("error").unwrap().get("code").unwrap().as_i64(), Some(-32601));
    assert_eq!(
        response.get("error").unwrap().get_str("message"),
        Some("unknown method `resources/list`")
    );

    let response = request(2, "tools/call", r#"{"name": "nope", "arguments": {}}"#);
    let result = result(&response);
    assert_eq!(result.get_bool("isError"), Some(true));
    let text = text_of(result);
    assert!(text.contains("unknown tool"), "{text}");
    assert_eq!(text, "tgrep: unknown tool `nope`");
}

#[test]
fn notifications_get_no_response() {
    for line in [
        r#"{"jsonrpc": "2.0", "method": "notifications/cancelled"}"#,
        r#"{"jsonrpc": "2.0", "method": "ping"}"#,
        r#"{}"#,
    ] {
        assert!(matches!(handle_message(line, "0"), Step::Silence), "{line}");
    }
    request(2, "ping", "{}");
}

#[test]
fn unreadable_messages_are_answered_without_an_id() {
    for (line, code) in [("{", -32700), ("[]", -32600), ("3", -32600)] {
        let Step::Reply(response) = handle_message(line, "0") else {
            panic!("an answer to {line}");
        };
        assert!(response.get("id").unwrap().is_null());
        assert_eq!(response.get("error").unwrap().get("code").unwrap().as_i64(), Some(code));
    }
    let Step::Reply(response) = handle_message("{", "0") else {
        panic!("an answer");
    };
    let message = serde_json::from_str::<serde_json::Value>("{").unwrap_err().to_string();
    assert_eq!(response.get("error").unwrap().get_str("message"), Some(message.as_str()));
}

#[test]
fn calls_run_tools_under_their_id() {
    let line = r#"{"id": "x", "method": "tools/call", "params": {"name": "snapshot_list"}}"#;
    let Step::Run(id, tool, arguments) = handle_message(line, "0") else {
        panic!("a tool runs");
    };
    assert_eq!(id.as_str(), Some("x"));
    assert_eq!(tool, Tool::SnapshotList);
    assert_eq!(print(&arguments), "{}");
    let failed = answer_call(id, Err("no luck".to_string()));
    assert_eq!(failed.get_str("id"), Some("x"));
    assert!(failed.get("error").is_none());
    assert_eq!(text_of(result(&failed)), "tgrep: no luck");
}

#[test]
fn answers_are_one_line() {
    let line = reply_line(&Json::object().put("text", Json::text("a\nb")));
    assert_eq!(line, "{\"text\":\"a\\nb\"}\n");
    assert!(is_blank(" \t\n"));
    assert!(!is_blank("{}"));
}

#[test]
fn search_reports_matches_totals_and_index_state() {
    let output = search(&parse_events(&found(), &budget(60)), 5, &scanning());
    let structured = &output.structured;
    assert_eq!(structured.get_u64("total_matches"), Some(3));
    assert_eq!(structured.get_u64("files_with_matches"), Some(3));
    assert_eq!(structured.get_bool("truncated"), Some(false));
    assert_eq!(structured.get("index").unwrap().get_str("state"), Some("scanning"));

    let paths: Vec<&str> = structured
        .get_list("matches")
        .unwrap()
        .iter()
        .map(|m| m.get_str("path").unwrap())
        .collect();
    assert!(paths.contains(&"src/main.rs"), "{paths:?}");
    assert!(paths.contains(&"src/lib.rs"), "{paths:?}");
    assert!(paths.contains(&"notes.md"), "{paths:?}");

    let text = &output.text;
    assert!(text.contains("src/main.rs"), "{text}");
    assert!(text.contains("3 matches in 3 files"), "{text}");
}

#[test]
fn search_truncates_but_still_counts_every_match() {
    let output = search(&parse_events(&found(), &budget(1)), 5, &scanning());
    let structured = &output.structured;
    assert_eq!(structured.get_u64("shown"), Some(1));
    assert_eq!(structured.get_u64("total_matches"), Some(3));
    assert_eq!(structured.get_bool("truncated"), Some(true));
    assert_eq!(structured.get_list("top_files").unwrap().len(), 3);
    assert!(structured.get_str("next_step").is_some());
}

#[test]
fn search_scopes_by_path_type_and_context() {
    let state = state();
    let scope = state.resolve_scope(Some("src"), Ok("/work/repo/src".to_string())).unwrap();
    let display = state.scope_display(&scope, false);
    assert!(matches!(&display, PathDisplay::Prefix(p) if p == "src/"));
    let plan = plan_search(
        &state.opts,
        &display,
        "needle",
        &args(r#"{"pattern": "needle", "literal": true, "type": ["md"], "context": 1}"#),
    )
    .ok()
    .unwrap();
    assert!(plan.options.fixed_string);
    assert_eq!(plan.options.types, ["md"]);
    assert_eq!(plan.budget.context, 1);

    let raw = "{\"type\":\"begin\",\"data\":{\"path\":{\"text\":\"src/main.rs\"}}}\n\
        {\"type\":\"context\",\"data\":{\"path\":{\"text\":\"src/main.rs\"},\"lines\":{\"text\":\"fn main() {\\n\"},\"line_number\":1}}\n\
        {\"type\":\"match\",\"data\":{\"path\":{\"text\":\"src/main.rs\"},\"lines\":{\"text\":\"    needle();\\n\"},\"line_number\":2,\"submatches\":[{\"start\":4,\"end\":10}]}}\n\
        {\"type\":\"context\",\"data\":{\"path\":{\"text\":\"src/main.rs\"},\"lines\":{\"text\":\"}\\n\"},\"line_number\":3}}\n\
        {\"type\":\"end\",\"data\":{\"path\":{\"text\":\"src/main.rs\"},\"stats\":{\"matched_lines\":1,\"matches\":1}}}\n";
    let parsed = parse_events(raw, &plan.budget);
    assert_eq!(parsed.hits.len(), 1);
    assert_eq!(parsed.hits[0].before, ["fn main() {"]);
    assert_eq!(parsed.hits[0].after, ["}"]);
    let output = search(&parsed, 1, &scanning());
    let first = &output.structured.get_list("matches").unwrap()[0];
    assert_eq!(first.get_list("before").unwrap()[0].as_str(), Some("fn main() {"));
    assert_eq!(first.get_list("after").unwrap()[0].as_str(), Some("}"));
}

#[test]
fn count_matches_ranks_files_by_hit_count() {
    let plan = plan_count(
        &options(),
        &PathDisplay::Bare,
        "needle",
        &args(r#"{"pattern": "needle", "literal": true}"#),
    )
    .ok()
    .unwrap();
    let separator = &plan.options.field_match_separator;
    let raw: String = [("src/main.rs", 1), ("src/lib.rs", 1), ("notes.md", 1), ("src/busy.rs", 4)]
        .iter()
        .map(|(path, n)| format!("{path}{separator}{n}\n"))
        .collect();
    let output = count_matches(&raw, plan.max_files, 3, &scanning());
    let files = output.structured.get_list("files").unwrap();
    assert_eq!(files[0].get_str("path"), Some("src/busy.rs"));
    assert_eq!(files[0].get_u64("matches"), Some(4));
    assert_eq!(output.structured.get_u64("total_matches"), Some(7));
    assert_eq!(output.structured.get("index").unwrap().get_str("state"), Some("scanning"));
}

#[test]
fn search_files_lists_and_filters_paths() {
    let raw = "notes.md\nsrc/lib.rs\nsrc/main.rs\n";
    let all = search_files(raw, &None, 200, 1, &scanning());
    assert_eq!(all.structured.get_u64("total"), Some(3));
    assert_eq!(all.structured.get("index").unwrap().get_str("server"), Some("none"));

    let plan = plan_files(&options(), &PathDisplay::Bare, &args(r#"{"contains": "MAIN"}"#))
        .ok()
        .unwrap();
    let named = search_files(raw, &plan.contains, plan.max_results, 1, &scanning());
    let files = named.structured.get_list("files").unwrap();
    assert_eq!(files.len(), 1);
    assert_eq!(files[0].as_str(), Some("src/main.rs"));
    let cut = search_files(raw, &None, 2, 1, &scanning());
    assert_eq!(cut.structured.get_u64("total"), Some(3));
    assert_eq!(cut.structured.get_list("files").unwrap().len(), 2);
}

#[test]
fn paths_outside_the_root_are_refused() {
    let state = state();
    for (escape, resolved) in
        [("..", "/work"), ("../..", "/"), ("src/../..", "/work"), ("../repository", "/work/repository")]
    {
        let text = state.resolve_scope(Some(escape), Ok(resolved.to_string())).err().unwrap();
        assert!(text.contains("outside the server root"), "{escape}: {text}");
    }
    assert_eq!(
        state.resolve_scope(Some("src"), Ok("/work/repo/src".to_string())),
        Ok("/work/repo/src".to_string())
    );
    assert!(state.resolve_scope(Some("gone"), Err("missing".to_string())).is_err());
    assert_eq!(state.resolve_scope(None, Err(String::new())), Ok("/work/repo".to_string()));
}

#[test]
fn index_status_names_the_root_and_the_index_it_would_read() {
    let output = index_status(&scanning(), "/work/repo", "/work/repo/.tgrep");
    let structured = &output.structured;
    assert_eq!(structured.get_str("state"), Some("scanning"));
    assert_eq!(structured.get_str("server"), Some("none"));
    assert!(structured.get_str("index_dir").unwrap().ends_with(".tgrep"));
    assert!(output.text.starts_with("root: /work/repo\nindex: /work/repo/.tgrep\nstate: scanning"));
}

#[test]
fn sessions_open_on_directories() {
    let made = |root: Result<String, String>, is_dir: bool| {
        McpState::new("repo", root, is_dir, '/', None, "i".to_string(), options())
    };
    assert_eq!(
        made(Err("no such file".to_string()), false).err().unwrap(),
        "cannot open root repo: no such file"
    );
    assert_eq!(
        made(Ok("/f".to_string()), false).err().unwrap(),
        "root /f is not a directory"
    );
    let state = made(Ok("/d".to_string()), true).ok().unwrap();
    assert_eq!(state.index_dir, "i");
    assert!(state.index_path_arg().is_none());
    assert_eq!(state.start_action(true), StartAction::Adopt);
    assert_eq!(state.start_action(false), StartAction::Nothing);
}

#[test]
fn a_server_that_is_building_refuses_whole_scans() {
    let mut state = state();
    state.origin = ServerOrigin::Embedded;
    let building = state.index_status(
        Some(args(r#"{"indexing": true, "index_progress": 5, "index_total": 9}"#)),
        None,
    );
    assert_eq!(building.readiness, IndexReadiness::Building);
    assert!(building.being_built());
    assert!(building.refusal(true, false).unwrap().starts_with("the index is not ready"));
    assert!(building.refusal(false, false).is_none());
    assert!(building.refusal(true, true).is_none());
    assert_eq!(building.await_ready(0, 250), WaitStep::Again(100));
    assert_eq!(building.await_ready(200, 250), WaitStep::Again(50));
    assert_eq!(building.await_ready(250, 250), WaitStep::Done);
    let ready = state.index_status(Some(args(r#"{"hidden_complete": true}"#)), None);
    assert_eq!(ready.readiness, IndexReadiness::Indexed);
    assert_eq!(ready.await_ready(0, 250), WaitStep::Done);
    assert!(ready.refusal(true, false).is_none());
}

#[test]
fn an_index_on_disk_has_to_be_complete() {
    let meta = |complete, hidden_complete, current_format| {
        state().index_status(
            None,
            Some(MetaCoverage { complete, hidden_complete, current_format, updated_at: 9 }),
        )
    };
    let covered = |complete, hidden_complete| meta(complete, hidden_complete, true).readiness;
    assert_eq!(covered(true, true), IndexReadiness::Indexed);
    assert_eq!(covered(true, false), IndexReadiness::Scanning);
    assert_eq!(covered(false, true), IndexReadiness::Scanning);
    let foreign = meta(true, true, false);
    assert_eq!(foreign.readiness, IndexReadiness::Scanning);
    assert!(foreign.server.is_none());
    assert_eq!(foreign.index_updated_at, Some(9));
    assert_eq!(
        foreign.note.as_deref(),
        Some("on-disk index is incomplete or predates hidden-file coverage; queries scan")
    );
}

#[test]
fn native_separators_stay_in_the_root() {
    let state = McpState::new(
        "repo",
        Ok(r"\\?\C:\work\repo".to_string()),
        true,
        '\\',
        None,
        r"\\?\C:\work\repo\.tgrep".to_string(),
        options(),
    )
    .ok()
    .unwrap();
    let path = r"\\?\C:\work\repo\src\core".to_string();
    assert_eq!(state.resolve_scope(Some("src/core"), Ok(path.clone())), Ok(path.clone()));
    assert!(matches!(state.scope_display(&path, false), PathDisplay::Prefix(p) if p == "src/core/"));
    assert!(matches!(state.scope_display(&path, true), PathDisplay::Exact(p) if p == "src/core"));
    assert!(matches!(state.scope_display(&state.root, false), PathDisplay::Bare));
    let beside = r"\\?\C:\work\repository".to_string();
    assert!(state.resolve_scope(Some("x"), Ok(beside)).is_err());
}

#[test]
fn snapshots_walk_by_the_rules_of_an_index() {
    let mut state = state();
    state.opts.exclude_dirs = vec!["target".to_string()];
    state.opts.max_file_size = Some(7);
    state.opts.no_require_git = true;
    let walk = state.snapshot_walk(false);
    assert!(!walk.no_ignore);
    assert!(walk.no_require_git);
    assert_eq!(walk.max_file_size, None);
    assert_eq!(walk.exclude_dirs, ["target"]);
    assert_eq!(walk.exclude_paths, ["/work/repo/.tgrep"]);
    assert!(state.snapshot_walk(true).no_ignore);
    state.opts.no_ignore = true;
    assert!(state.snapshot_walk(false).no_ignore);
}

#[test]
fn smaller_listings_are_beginnings() {
    let few = parse_events(&found(), &budget(2));
    let many = parse_events(&found(), &budget(60));
    assert_eq!(few.hits.len(), 2);
    for (a, b) in few.hits.iter().zip(&many.hits) {
        assert_eq!((&a.path, a.line, &a.text), (&b.path, b.line, &b.text));
    }
}

#[test]
fn arguments_are_checked() {
    let display = PathDisplay::Bare;
    let o = options();
    assert!(required_pattern(&args("{}")).is_err());
    assert!(required_pattern(&args(r#"{"pattern": ""}"#)).is_err());
    assert_eq!(required_pattern(&args(r#"{"pattern": "x"}"#)), Ok("x".to_string()));
    assert!(plan_search(&o, &display, "x", &args(r#"{"case": "odd"}"#)).is_err());
    assert!(plan_search(&o, &display, "x", &args(r#"{"glob": [1]}"#)).is_err());
    assert!(plan_search(&o, &display, "x", &args(r#"{"max_results": -1}"#)).is_err());
    let plan = plan_search(&o, &display, "x", &args(r#"{"max_results": 0}"#)).ok().unwrap();
    assert_eq!(plan.budget.max_results, 1);
    let plan = plan_search(&o, &display, "x", &args(r#"{"case": "insensitive"}"#)).ok().unwrap();
    assert!(plan.options.case_insensitive);
    assert_eq!(plan.budget.max_results, 60);
    assert_eq!(plan.budget.max_per_file, 10);
    let plan = plan_search(&o, &display, "x", &args(r#"{"max_results": 100000}"#)).ok().unwrap();
    assert_eq!(plan.budget.max_results, 1000);
    let count = plan_count(&o, &display, "x", &args("{}")).ok().unwrap();
    assert!(count.options.count);
    assert_eq!(count.max_files, 40);
    let files = plan_files(&o, &display, &args(r#"{"contains": "a", "hidden": true}"#)).ok().unwrap();
    assert_eq!(files.max_results, 200);
    assert_eq!(files.contains.as_deref(), Some("a"));
    assert!(files.options.hidden);
    assert_eq!(wait_seconds(&args("{}")), 3);
    assert_eq!(wait_seconds(&args(r#"{"wait_seconds": 9999}"#)), 600);
    assert_eq!(wait_seconds(&args(r#"{"wait_seconds": 7}"#)), 7);
}

#[test]
fn one_file_cannot_crowd_out_the_rest() {
    let mut raw = String::new();
    for file in ["a", "b"] {
        raw += &format!(
            "{{\"type\":\"begin\",\"data\":{{\"path\":{{\"text\":\"{file}\"}}}}}}\n"
        );
        for n in 1..=3 {
            raw += &format!(
                "{{\"type\":\"match\",\"data\":{{\"path\":{{\"text\":\"{file}\"}},\"lines\":{{\"text\":\"needle\\n\"}},\"line_number\":{n},\"submatches\":[]}}}}\n"
            );
        }
        raw += &format!(
            "{{\"type\":\"end\",\"data\":{{\"path\":{{\"text\":\"{file}\"}},\"stats\":{{\"matched_lines\":3,\"matches\":3}}}}}}\n"
        );
    }
    raw += "not json\n";
    let parsed = parse_events(&raw, &Budget { max_results: 60, max_per_file: 2, context: 0 });
    let shown: Vec<(&str, u64)> = parsed.hits.iter().map(|h| (h.path.as_str(), h.line)).collect();
    assert_eq!(shown, [("a", 1), ("a", 2), ("b", 1), ("b", 2)]);
    assert_eq!(parsed.total_matches, 6);
    assert_eq!(parsed.files_with_matches, 2);
}

#[test]
fn long_lines_are_clipped() {
    let long = "x".repeat(2000);
    let raw = format!(
        "{{\"type\":\"match\",\"data\":{{\"path\":{{\"text\":\"a\"}},\"lines\":{{\"text\":\"{long}\\n\"}},\"line_number\":1,\"submatches\":[]}}}}\n"
    );
    let parsed = parse_events(&raw, &budget(5));
    assert!(parsed.hits[0].text.len() < 600, "{}", parsed.hits[0].text.len());
    assert!(parsed.hits[0].text.starts_with("xxxx"));
}

#[test]
fn context_stays_within_its_budget() {
    let line = |kind: &str, n: u64| {
        format!(
            "{{\"type\":\"{kind}\",\"data\":{{\"path\":{{\"text\":\"a\"}},\"lines\":{{\"text\":\"l{n}\\n\"}},\"line_number\":{n},\"submatches\":[]}}}}\n"
        )
    };
    let raw: String = [
        line("context", 1),
        line("context", 2),
        line("match", 3),
        line("context", 4),
        line("context", 5),
        line("context", 9),
        line("match", 10),
    ]
    .concat();
    let parsed = parse_events(&raw, &Budget { max_results: 9, max_per_file: 9, context: 1 });
    assert_eq!(parsed.hits[0].before, ["l2"]);
    assert_eq!(parsed.hits[0].after, ["l4"]);
    assert_eq!(parsed.hits[1].before, ["l9"]);
    assert!(parsed.hits[1].after.is_empty());
}
