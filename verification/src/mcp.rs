//! The protocol of a session: one JSON-RPC message per line.
use crate::json::{json_parsed, json_text, parse, print, trees, Json, JsonTree};
use crate::mcp_tools::{tool_definitions, tool_tree, tool_trees};
use crate::text::{add_text, owned, same, trim, trimmed};
use crate::tool::{outcome, ToolOutput, ToolOutputView};
use vstd::prelude::*;

verus! {

/// What a client is told of the tools and of how to use them.
pub const INSTRUCTIONS: &'static str = "\
tgrep serves one repository through a trigram index, so a regex search touches \
only the files that could match. It is built for repositories too large to scan.

Recommended order of work:
1. `count_matches` first on a broad symbol — it shows how many hits exist and \
which files hold them, for a fraction of the output of a full search.
2. `search` with `path`, `glob` or `type` narrowed to what step 1 pointed at. \
Use `literal: true` for symbols and strings; it avoids regex-escaping mistakes.
3. `search_files` to find files by path rather than content.

Every result carries an `index` block. `state: \"indexed\"` means the trigram \
index answered; `\"building\"` or `\"scanning\"` mean the tree is being read \
directly and the answer is correct but slow. Results reflect the index, which \
tracks the filesystem asynchronously — a search issued immediately after an \
edit may predate it.

The first index of a large repository takes a minute or two. Until it exists, \
a whole-repository content search reads every file and takes much longer than \
waiting, so `search` and `count_matches` refuse one and say so. Open such a \
session with `index_status {\"wait_seconds\": 120}`, or scope the query with \
`path`.

`snapshot_create` records the tree's metadata; `snapshot_diff` reports what has \
changed since. Pass `hash: true` when creating one to enable content \
verification and rename detection later.";

/// The code of a message that is not JSON.
pub const PARSE_ERROR: i32 = -32700;

/// The code of a message that is not a single object.
pub const INVALID_REQUEST: i32 = -32600;

/// The code of a request of a method that there is not.
pub const UNKNOWN_METHOD: i32 = -32601;

/// The protocol versions that are spoken, newest first. The newest is also what
/// an unknown one is answered with, which is how a client learns what to
/// downgrade to.
pub open spec fn protocol_versions() -> Seq<Seq<char>> {
    seq!["2025-11-25"@, "2025-06-18"@, "2025-03-26"@, "2024-11-05"@]
}

/// The version in which a request is answered.
pub open spec fn negotiated(requested: Seq<char>) -> Seq<char> {
    if protocol_versions().contains(requested) {
        requested
    } else {
        protocol_versions()[0]
    }
}

/// The protocol versions that are spoken, newest first.
pub fn known_versions() -> (r: Vec<&'static str>)
    ensures
        r@.map_values(|s: &'static str| s@) == protocol_versions(),
{
    let r: Vec<&'static str> = vec!["2025-11-25", "2025-06-18", "2025-03-26", "2024-11-05"];
    assert(r@.map_values(|s: &'static str| s@) =~= protocol_versions());
    r
}

/// The version in which a request is answered: the requested one where it is
/// spoken, else the newest.
pub fn negotiate(requested: &str) -> (r: &'static str)
    ensures
        r@ == negotiated(requested@),
{
    let known = known_versions();
    let ghost names = known@.map_values(|s: &'static str| s@);
    let mut i: usize = 0;
    while i < known.len()
        invariant
            i <= known@.len(),
            names == known@.map_values(|s: &'static str| s@),
            names == protocol_versions(),
            forall|j: int| 0 <= j < i ==> names[j] != requested@,
        decreases known@.len() - i,
    {
        assert(names[i as int] == known@[i as int]@);
        if same(known[i], requested) {
            assert(protocol_versions().contains(requested@));
            return known[i];
        }
        i += 1;
    }
    assert(names.len() == known@.len() && names.len() == 4);
    assert(names[0] == known@[0]@);
    known[0]
}

/// The answer to a client that opens a session.
pub open spec fn initialize_tree(params: JsonTree, version: Seq<char>) -> JsonTree {
    let requested = match params.field_text("protocolVersion"@) {
        Some(v) => v,
        None => ""@,
    };
    let none = Map::<Seq<char>, JsonTree>::empty();
    let tools = none.insert("listChanged"@, JsonTree::Bool(false));
    let capabilities = none.insert("tools"@, JsonTree::Object(tools));
    let server = none.insert("name"@, JsonTree::Text("tgrep"@)).insert(
        "title"@,
        JsonTree::Text("tgrep \u{2014} indexed code search"@),
    ).insert("version"@, JsonTree::Text(version));
    JsonTree::Object(
        none.insert("protocolVersion"@, JsonTree::Text(negotiated(requested))).insert(
            "capabilities"@,
            JsonTree::Object(capabilities),
        ).insert("serverInfo"@, JsonTree::Object(server)).insert(
            "instructions"@,
            JsonTree::Text(INSTRUCTIONS@),
        ),
    )
}

/// Answers a client that opens a session. `version` is that of this program.
pub fn initialize(params: &Json, version: &str) -> (r: Json)
    ensures
        r@ == initialize_tree(params@, version@),
{
    let requested = match params.get_str("protocolVersion") {
        Some(v) => v,
        None => "",
    };
    let tools = Json::object().put("listChanged", Json::Bool(false));
    let capabilities = Json::object().put("tools", tools);
    let server = Json::object().put("name", Json::text("tgrep")).put(
        "title",
        Json::text("tgrep \u{2014} indexed code search"),
    ).put("version", Json::text(version));
    Json::object().put("protocolVersion", Json::text(negotiate(requested))).put(
        "capabilities",
        capabilities,
    ).put("serverInfo", server).put("instructions", Json::text(INSTRUCTIONS))
}

/// An answer that carries a result.
pub open spec fn success_tree(id: JsonTree, result: JsonTree) -> JsonTree {
    JsonTree::Object(
        Map::<Seq<char>, JsonTree>::empty().insert("jsonrpc"@, JsonTree::Text("2.0"@)).insert(
            "id"@,
            id,
        ).insert("result"@, result),
    )
}

/// An answer that carries a result.
pub fn success(id: Json, result: Json) -> (r: Json)
    ensures
        r@ == success_tree(id@, result@),
{
    Json::object().put("jsonrpc", Json::text("2.0")).put("id", id).put("result", result)
}

/// An answer that carries an error.
pub open spec fn error_tree(id: JsonTree, code: i32, message: Seq<char>) -> JsonTree {
    let none = Map::<Seq<char>, JsonTree>::empty();
    let error = none.insert("code"@, JsonTree::signed(code as i64)).insert(
        "message"@,
        JsonTree::Text(message),
    );
    JsonTree::Object(
        none.insert("jsonrpc"@, JsonTree::Text("2.0"@)).insert("id"@, id).insert(
            "error"@,
            JsonTree::Object(error),
        ),
    )
}

/// An answer that carries an error.
pub fn error_response(id: Json, code: i32, message: &str) -> (r: Json)
    ensures
        r@ == error_tree(id@, code, message@),
{
    let error = Json::object().put("code", Json::signed(code as i64)).put(
        "message",
        Json::text(message),
    );
    Json::object().put("jsonrpc", Json::text("2.0")).put("id", id).put("error", error)
}

/// The tools that a call can name.
#[derive(Clone, Copy, Debug, PartialEq, Eq, Structural)]
pub enum Tool {
    Search,
    SearchFiles,
    CountMatches,
    IndexStatus,
    SnapshotCreate,
    SnapshotList,
    SnapshotDiff,
    SnapshotDelete,
}

impl Tool {
    /// The tool of a name.
    pub open spec fn of_name(name: Seq<char>) -> Option<Tool> {
        if name == "search"@ {
            Some(Tool::Search)
        } else if name == "search_files"@ {
            Some(Tool::SearchFiles)
        } else if name == "count_matches"@ {
            Some(Tool::CountMatches)
        } else if name == "index_status"@ {
            Some(Tool::IndexStatus)
        } else if name == "snapshot_create"@ {
            Some(Tool::SnapshotCreate)
        } else if name == "snapshot_list"@ {
            Some(Tool::SnapshotList)
        } else if name == "snapshot_diff"@ {
            Some(Tool::SnapshotDiff)
        } else if name == "snapshot_delete"@ {
            Some(Tool::SnapshotDelete)
        } else {
            None
        }
    }

    /// The tool of a name.
    pub fn named(name: &str) -> (r: Option<Tool>)
        ensures
            r == Tool::of_name(name@),
    {
        if same(name, "search") {
            Some(Tool::Search)
        } else if same(name, "search_files") {
            Some(Tool::SearchFiles)
        } else if same(name, "count_matches") {
            Some(Tool::CountMatches)
        } else if same(name, "index_status") {
            Some(Tool::IndexStatus)
        } else if same(name, "snapshot_create") {
            Some(Tool::SnapshotCreate)
        } else if same(name, "snapshot_list") {
            Some(Tool::SnapshotList)
        } else if same(name, "snapshot_diff") {
            Some(Tool::SnapshotDiff)
        } else if same(name, "snapshot_delete") {
            Some(Tool::SnapshotDelete)
        } else {
            None
        }
    }
}

/// What a message asks for.
pub enum Step {
    /// Nothing is answered.
    Silence,
    /// This is answered at once.
    Reply(Json),
    /// A tool runs on these arguments, and its outcome is answered under the id.
    Run(Json, Tool, Json),
}

/// What a [`Step`] says.
pub enum StepView {
    Silence,
    Reply(JsonTree),
    Run(JsonTree, Tool, JsonTree),
}

impl View for Step {
    type V = StepView;

    open spec fn view(&self) -> StepView {
        match self {
            Step::Silence => StepView::Silence,
            Step::Reply(json) => StepView::Reply(json@),
            Step::Run(id, tool, arguments) => StepView::Run(id@, *tool, arguments@),
        }
    }
}

/// One piece of text, as a tool's result carries it.
pub open spec fn content_tree(text: Seq<char>) -> JsonTree {
    JsonTree::List(
        seq![
            JsonTree::Object(
                Map::<Seq<char>, JsonTree>::empty().insert(
                    "type"@,
                    JsonTree::Text("text"@),
                ).insert("text"@, JsonTree::Text(text)),
            ),
        ],
    )
}

/// The result of a tool. A failure is a result too: the one who asked has to act
/// on it, and an error of the protocol never reaches them.
pub open spec fn result_tree(outcome: Result<ToolOutputView, Seq<char>>) -> JsonTree {
    let none = Map::<Seq<char>, JsonTree>::empty();
    JsonTree::Object(
        match outcome {
            Ok(output) => none.insert("content"@, content_tree(output.text)).insert(
                "structuredContent"@,
                output.structured,
            ).insert("isError"@, JsonTree::Bool(false)),
            Err(message) => none.insert("content"@, content_tree("tgrep: "@ + message)).insert(
                "isError"@,
                JsonTree::Bool(true),
            ),
        },
    )
}

fn content(text: &str) -> (r: Json)
    ensures
        r@ == content_tree(text@),
{
    let mut items: Vec<Json> = Vec::new();
    items.push(Json::object().put("type", Json::text("text")).put("text", Json::text(text)));
    proof {
        crate::json::lemma_trees(items@);
        assert(trees(items@) =~= content_tree(text@)->List_0);
    }
    Json::List(items)
}

/// Shapes the outcome of a tool as its result.
pub fn tool_result(done: Result<ToolOutput, String>) -> (r: Json)
    ensures
        r@ == result_tree(outcome(done)),
{
    match done {
        Ok(output) => Json::object().put("content", content(output.text.as_str())).put(
            "structuredContent",
            output.structured,
        ).put("isError", Json::Bool(false)),
        Err(message) => {
            let mut text = owned("tgrep: ");
            add_text(&mut text, message.as_str());
            Json::object().put("content", content(text.as_str())).put("isError", Json::Bool(true))
        },
    }
}

/// Answers a tool call with the outcome of its tool.
pub fn answer_call(id: Json, done: Result<ToolOutput, String>) -> (r: Json)
    ensures
        r@ == success_tree(id@, result_tree(outcome(done))),
{
    success(id, tool_result(done))
}

/// What a tool call asks for.
pub open spec fn call_of(id: JsonTree, params: JsonTree) -> StepView {
    let name = match params.field_text("name"@) {
        Some(name) => name,
        None => ""@,
    };
    let arguments = match params.field("arguments"@) {
        Some(tree) => tree,
        None => JsonTree::Object(Map::empty()),
    };
    match Tool::of_name(name) {
        Some(tool) => StepView::Run(id, tool, arguments),
        None => StepView::Reply(
            success_tree(id, result_tree(Err("unknown tool `"@ + name + "`"@))),
        ),
    }
}

/// Finds the tool that a call names, and its arguments.
pub fn call_tool(id: Json, params: &Json) -> (r: Step)
    ensures
        r@ == call_of(id@, params@),
{
    let name = match params.get_str("name") {
        Some(name) => name,
        None => "",
    };
    let arguments = match params.get("arguments") {
        Some(json) => json.copy(),
        None => Json::object(),
    };
    match Tool::named(name) {
        Some(tool) => Step::Run(id, tool, arguments),
        None => {
            let mut message = owned("unknown tool `");
            add_text(&mut message, name);
            add_text(&mut message, "`");
            Step::Reply(answer_call(id, Err(message)))
        },
    }
}

/// What a request asks for.
pub open spec fn request_step(
    id: JsonTree,
    method: Seq<char>,
    params: JsonTree,
    version: Seq<char>,
) -> StepView {
    if method == "initialize"@ {
        StepView::Reply(success_tree(id, initialize_tree(params, version)))
    } else if method == "tools/list"@ {
        StepView::Reply(
            success_tree(
                id,
                JsonTree::Object(
                    Map::<Seq<char>, JsonTree>::empty().insert(
                        "tools"@,
                        JsonTree::List(tool_trees()),
                    ),
                ),
            ),
        )
    } else if method == "tools/call"@ {
        call_of(id, params)
    } else if method == "ping"@ {
        StepView::Reply(success_tree(id, JsonTree::Object(Map::empty())))
    } else {
        StepView::Reply(error_tree(id, UNKNOWN_METHOD, "unknown method `"@ + method + "`"@))
    }
}

fn answer_request(id: Json, method: &str, params: &Json, version: &str) -> (r: Step)
    ensures
        r@ == request_step(id@, method@, params@, version@),
{
    if same(method, "initialize") {
        Step::Reply(success(id, initialize(params, version)))
    } else if same(method, "tools/list") {
        Step::Reply(success(id, Json::object().put("tools", Json::List(tool_definitions()))))
    } else if same(method, "tools/call") {
        call_tool(id, params)
    } else if same(method, "ping") {
        Step::Reply(success(id, Json::object()))
    } else {
        let mut message = owned("unknown method `");
        add_text(&mut message, method);
        add_text(&mut message, "`");
        Step::Reply(error_response(id, UNKNOWN_METHOD, message.as_str()))
    }
}

/// What a message that was read asks for: a single object is expected, and one
/// without an id is a notification, which is never answered.
pub open spec fn message_step(message: JsonTree, version: Seq<char>) -> StepView {
    let method = match message.field_text("method"@) {
        Some(method) => method,
        None => ""@,
    };
    let params = match message.field("params"@) {
        Some(params) => params,
        None => JsonTree::Null,
    };
    if !(message is Object) {
        StepView::Reply(error_tree(JsonTree::Null, INVALID_REQUEST, "expected a single JSON-RPC object"@))
    } else {
        match message.field("id"@) {
            None => StepView::Silence,
            Some(id) => request_step(id, method, params, version),
        }
    }
}

/// Decides what a message that was read asks for.
pub fn handle_value(message: &Json, version: &str) -> (r: Step)
    ensures
        r@ == message_step(message@, version@),
{
    if !message.is_object() {
        return Step::Reply(
            error_response(Json::Null, INVALID_REQUEST, "expected a single JSON-RPC object"),
        );
    }
    let id = match message.get("id") {
        Some(id) => id.copy(),
        None => {
            return Step::Silence;
        },
    };
    let method = match message.get_str("method") {
        Some(method) => method,
        None => "",
    };
    let params = match message.get("params") {
        Some(params) => params.copy(),
        None => Json::Null,
    };
    answer_request(id, method, &params, version)
}

/// What one line asks for.
pub open spec fn line_step(line: Seq<char>, version: Seq<char>) -> StepView {
    match json_parsed(line) {
        Err(message) => StepView::Reply(error_tree(JsonTree::Null, PARSE_ERROR, message)),
        Ok(tree) => message_step(tree, version),
    }
}

/// Decides what one line asks for.
pub fn handle_message(line: &str, version: &str) -> (r: Step)
    ensures
        r@ == line_step(line@, version@),
{
    match parse(line) {
        Err(message) => Step::Reply(error_response(Json::Null, PARSE_ERROR, message.as_str())),
        Ok(message) => handle_value(&message, version),
    }
}

/// Whether a line holds no message.
pub fn is_blank(line: &str) -> (r: bool)
    ensures
        r <==> trimmed(line@).len() == 0,
{
    let rest = trim(line);
    rest.as_str().is_empty()
}

/// An answer as it is sent: a client tells answers apart by their lines, so each
/// is one line.
pub fn reply_line(response: &Json) -> (r: String)
    ensures
        r@ == json_text(response@) + "\n"@,
        forall|i: int| 0 <= i < r@.len() ==> (#[trigger] r@[i] == '\n' <==> i == r@.len() - 1),
{
    let mut out = print(response);
    let ghost text = out@;
    add_text(&mut out, "\n");
    proof {
        reveal_strlit("\n");
        assert forall|i: int| 0 <= i < out@.len() implies (#[trigger] out@[i] == '\n' <==> i
            == out@.len() - 1) by {
            if i < text.len() {
                assert(text[i] != '\n') by {
                    if text[i] == '\n' {
                        assert(text.contains('\n'));
                    }
                }
            }
        }
    }
    out
}

/// Whether a tree is an answer under an id: it has the id, the version of the
/// protocol, and either a result or an error.
pub open spec fn is_answer(tree: JsonTree, id: JsonTree) -> bool {
    &&& tree is Object
    &&& tree.field("jsonrpc"@) == Some(JsonTree::Text("2.0"@))
    &&& tree.field("id"@) == Some(id)
    &&& tree.field("result"@) is Some <==> tree.field("error"@) is None
}

proof fn lemma_answers(id: JsonTree, result: JsonTree, code: i32, message: Seq<char>)
    ensures
        is_answer(success_tree(id, result), id),
        success_tree(id, result).field("result"@) == Some(result),
        is_answer(error_tree(id, code, message), id),
        error_tree(id, code, message).field("error"@) is Some,
{
    reveal_strlit("jsonrpc");
    reveal_strlit("id");
    reveal_strlit("result");
    reveal_strlit("error");
    assert("jsonrpc"@.len() == 7 && "id"@.len() == 2 && "result"@.len() == 6 && "error"@.len()
        == 5);
}

/// A notification is never answered, and every other message is.
pub proof fn law_only_notifications_go_unanswered(line: Seq<char>, version: Seq<char>)
    ensures
        line_step(line, version) is Silence <==> (json_parsed(line) matches Ok(tree) && tree is Object
            && tree.field("id"@) is None),
{
}

/// Every request is answered under its own id, whatever it asks for and however
/// its tool ends.
pub proof fn law_answers_carry_the_id_of_their_request(
    message: JsonTree,
    version: Seq<char>,
    id: JsonTree,
    done: Result<ToolOutputView, Seq<char>>,
)
    requires
        message is Object,
        message.field("id"@) == Some(id),
    ensures
        match message_step(message, version) {
            StepView::Silence => false,
            StepView::Reply(tree) => is_answer(tree, id),
            StepView::Run(under, _, _) => under == id && is_answer(
                success_tree(under, result_tree(done)),
                id,
            ),
        },
{
    let method = match message.field_text("method"@) {
        Some(method) => method,
        None => ""@,
    };
    let params = match message.field("params"@) {
        Some(params) => params,
        None => JsonTree::Null,
    };
    let step = message_step(message, version);
    assert(step == request_step(id, method, params, version));
    lemma_answers(id, initialize_tree(params, version), UNKNOWN_METHOD, "unknown method `"@ + method + "`"@);
    lemma_answers(
        id,
        JsonTree::Object(
            Map::<Seq<char>, JsonTree>::empty().insert("tools"@, JsonTree::List(tool_trees())),
        ),
        0,
        ""@,
    );
    lemma_answers(id, JsonTree::Object(Map::empty()), 0, ""@);
    lemma_answers(id, result_tree(done), 0, ""@);
    let name = match params.field_text("name"@) {
        Some(name) => name,
        None => ""@,
    };
    lemma_answers(id, result_tree(Err("unknown tool `"@ + name + "`"@)), 0, ""@);
}

/// A tool that fails is answered with a result that says so, never with an
/// error of the protocol.
pub proof fn law_failures_are_results(id: JsonTree, done: Result<ToolOutputView, Seq<char>>)
    ensures
        ({
            let answer = success_tree(id, result_tree(done));
            &&& answer.field("error"@) is None
            &&& answer.field("result"@) == Some(result_tree(done))
            &&& result_tree(done).field_bool("isError"@) == Some(done is Err)
        }),
{
    lemma_answers(id, result_tree(done), 0, ""@);
}

/// A client that asks for a version that is spoken gets it; any other gets the
/// newest.
pub proof fn law_versions_are_negotiated(params: JsonTree, version: Seq<char>)
    ensures
        ({
            let answered = initialize_tree(params, version).field_text("protocolVersion"@);
            &&& answered is Some
            &&& protocol_versions().contains(answered->0)
            &&& forall|v: Seq<char>|
                params.field_text("protocolVersion"@) == Some(v) && #[trigger]
                protocol_versions().contains(v) ==> answered == Some(v)
            &&& forall|v: Seq<char>|
                params.field_text("protocolVersion"@) == Some(v) && !#[trigger]
                protocol_versions().contains(v) ==> answered == Some(protocol_versions()[0])
        }),
{
    reveal_strlit("protocolVersion");
    reveal_strlit("capabilities");
    reveal_strlit("serverInfo");
    reveal_strlit("instructions");
    assert("protocolVersion"@.len() == 15 && "capabilities"@.len() == 12 && "serverInfo"@.len()
        == 10);
    assert("instructions"@.len() == 12);
    assert(protocol_versions().contains(protocol_versions()[0]));
}

/// The tools that are announced are those that a call can name.
pub proof fn law_announced_tools_can_be_called(name: Seq<char>)
    ensures
        Tool::of_name(name) is Some <==> exists|i: int|
            0 <= i < tool_trees().len() && (#[trigger] tool_trees()[i]).field_text("name"@) == Some(
                name,
            ),
{
    reveal_strlit("name");
    reveal_strlit("title");
    reveal_strlit("description");
    reveal_strlit("inputSchema");
    assert("name"@.len() == 4 && "title"@.len() == 5 && "description"@.len() == 11
        && "inputSchema"@.len() == 11);
    assert("description"@[0] == 'd' && "inputSchema"@[0] == 'i');
    assert forall|n: Seq<char>, t: Seq<char>, d: Seq<char>, s: JsonTree| #[trigger]
        tool_tree(n, t, d, s).field_text("name"@) == Some(n) by {}
    let all = tool_trees();
    let f = "name"@;
    assert(all[0].field_text(f) == Some("search"@));
    assert(all[1].field_text(f) == Some("count_matches"@));
    assert(all[2].field_text(f) == Some("search_files"@));
    assert(all[3].field_text(f) == Some("index_status"@));
    assert(all[4].field_text(f) == Some("snapshot_create"@));
    assert(all[5].field_text(f) == Some("snapshot_list"@));
    assert(all[6].field_text(f) == Some("snapshot_diff"@));
    assert(all[7].field_text(f) == Some("snapshot_delete"@));
}

} // verus!
