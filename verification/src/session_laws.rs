//! What holds of a session: which tool a call runs, how messages are answered,
//! what is said of the index, where a query looks, and how a program ends.
use crate::json::{json_parsed, JsonTree};
use crate::mcp::{
    call_of, initialize_tree, line_step, message_step, result_tree, success_tree, StepView, Tool,
};
use crate::output::DisplayView;
use crate::state::{
    display_of, start_of, wait_step, is_refused, scope_result, server_note, status_of, IndexReadiness, IndexStatusView,
    McpState, MetaCoverage, ServerOrigin, StartAction, WaitStep,
};
use crate::status::{index_status_text, parsed_status, server_status_text, MetaCounts, StatusView};
use crate::targets::{
    code_of, hides_names, listing_over, target_display, target_text, targets_of, Searched,
};
use crate::text::{decimal, occurs, trimmed};
use crate::text_laws::lemma_occurs;
use crate::tool::ToolOutputView;
use vstd::prelude::*;

verus! {

proof fn lemma_message_keys()
    ensures
        "jsonrpc"@ != "id"@,
        "jsonrpc"@ != "result"@,
        "jsonrpc"@ != "error"@,
        "jsonrpc"@ != "code"@,
        "jsonrpc"@ != "message"@,
        "jsonrpc"@ != "content"@,
        "jsonrpc"@ != "structuredContent"@,
        "jsonrpc"@ != "isError"@,
        "jsonrpc"@ != "type"@,
        "jsonrpc"@ != "text"@,
        "jsonrpc"@ != "protocolVersion"@,
        "jsonrpc"@ != "capabilities"@,
        "jsonrpc"@ != "serverInfo"@,
        "jsonrpc"@ != "instructions"@,
        "jsonrpc"@ != "name"@,
        "jsonrpc"@ != "title"@,
        "jsonrpc"@ != "version"@,
        "jsonrpc"@ != "tools"@,
        "jsonrpc"@ != "listChanged"@,
        "jsonrpc"@ != "initialize"@,
        "jsonrpc"@ != "tools/list"@,
        "jsonrpc"@ != "tools/call"@,
        "jsonrpc"@ != "ping"@,
        "id"@ != "result"@,
        "id"@ != "error"@,
        "id"@ != "code"@,
        "id"@ != "message"@,
        "id"@ != "content"@,
        "id"@ != "structuredContent"@,
        "id"@ != "isError"@,
        "id"@ != "type"@,
        "id"@ != "text"@,
        "id"@ != "protocolVersion"@,
        "id"@ != "capabilities"@,
        "id"@ != "serverInfo"@,
        "id"@ != "instructions"@,
        "id"@ != "name"@,
        "id"@ != "title"@,
        "id"@ != "version"@,
        "id"@ != "tools"@,
        "id"@ != "listChanged"@,
        "id"@ != "initialize"@,
        "id"@ != "tools/list"@,
        "id"@ != "tools/call"@,
        "id"@ != "ping"@,
        "result"@ != "error"@,
        "result"@ != "code"@,
        "result"@ != "message"@,
        "result"@ != "content"@,
        "result"@ != "structuredContent"@,
        "result"@ != "isError"@,
        "result"@ != "type"@,
        "result"@ != "text"@,
        "result"@ != "protocolVersion"@,
        "result"@ != "capabilities"@,
        "result"@ != "serverInfo"@,
        "result"@ != "instructions"@,
        "result"@ != "name"@,
        "result"@ != "title"@,
        "result"@ != "version"@,
        "result"@ != "tools"@,
        "result"@ != "listChanged"@,
        "result"@ != "initialize"@,
        "result"@ != "tools/list"@,
        "result"@ != "tools/call"@,
        "result"@ != "ping"@,
        "error"@ != "code"@,
        "error"@ != "message"@,
        "error"@ != "content"@,
        "error"@ != "structuredContent"@,
        "error"@ != "isError"@,
        "error"@ != "type"@,
        "error"@ != "text"@,
        "error"@ != "protocolVersion"@,
        "error"@ != "capabilities"@,
        "error"@ != "serverInfo"@,
        "error"@ != "instructions"@,
        "error"@ != "name"@,
        "error"@ != "title"@,
        "error"@ != "version"@,
        "error"@ != "tools"@,
        "error"@ != "listChanged"@,
        "error"@ != "initialize"@,
        "error"@ != "tools/list"@,
        "error"@ != "tools/call"@,
        "error"@ != "ping"@,
        "code"@ != "message"@,
        "code"@ != "content"@,
        "code"@ != "structuredContent"@,
        "code"@ != "isError"@,
        "code"@ != "type"@,
        "code"@ != "text"@,
        "code"@ != "protocolVersion"@,
        "code"@ != "capabilities"@,
        "code"@ != "serverInfo"@,
        "code"@ != "instructions"@,
        "code"@ != "name"@,
        "code"@ != "title"@,
        "code"@ != "version"@,
        "code"@ != "tools"@,
        "code"@ != "listChanged"@,
        "code"@ != "initialize"@,
        "code"@ != "tools/list"@,
        "code"@ != "tools/call"@,
        "code"@ != "ping"@,
        "message"@ != "content"@,
        "message"@ != "structuredContent"@,
        "message"@ != "isError"@,
        "message"@ != "type"@,
        "message"@ != "text"@,
        "message"@ != "protocolVersion"@,
        "message"@ != "capabilities"@,
        "message"@ != "serverInfo"@,
        "message"@ != "instructions"@,
        "message"@ != "name"@,
        "message"@ != "title"@,
        "message"@ != "version"@,
        "message"@ != "tools"@,
        "message"@ != "listChanged"@,
        "message"@ != "initialize"@,
        "message"@ != "tools/list"@,
        "message"@ != "tools/call"@,
        "message"@ != "ping"@,
        "content"@ != "structuredContent"@,
        "content"@ != "isError"@,
        "content"@ != "type"@,
        "content"@ != "text"@,
        "content"@ != "protocolVersion"@,
        "content"@ != "capabilities"@,
        "content"@ != "serverInfo"@,
        "content"@ != "instructions"@,
        "content"@ != "name"@,
        "content"@ != "title"@,
        "content"@ != "version"@,
        "content"@ != "tools"@,
        "content"@ != "listChanged"@,
        "content"@ != "initialize"@,
        "content"@ != "tools/list"@,
        "content"@ != "tools/call"@,
        "content"@ != "ping"@,
        "structuredContent"@ != "isError"@,
        "structuredContent"@ != "type"@,
        "structuredContent"@ != "text"@,
        "structuredContent"@ != "protocolVersion"@,
        "structuredContent"@ != "capabilities"@,
        "structuredContent"@ != "serverInfo"@,
        "structuredContent"@ != "instructions"@,
        "structuredContent"@ != "name"@,
        "structuredContent"@ != "title"@,
        "structuredContent"@ != "version"@,
        "structuredContent"@ != "tools"@,
        "structuredContent"@ != "listChanged"@,
        "structuredContent"@ != "initialize"@,
        "structuredContent"@ != "tools/list"@,
        "structuredContent"@ != "tools/call"@,
        "structuredContent"@ != "ping"@,
        "isError"@ != "type"@,
        "isError"@ != "text"@,
        "isError"@ != "protocolVersion"@,
        "isError"@ != "capabilities"@,
        "isError"@ != "serverInfo"@,
        "isError"@ != "instructions"@,
        "isError"@ != "name"@,
        "isError"@ != "title"@,
        "isError"@ != "version"@,
        "isError"@ != "tools"@,
        "isError"@ != "listChanged"@,
        "isError"@ != "initialize"@,
        "isError"@ != "tools/list"@,
        "isError"@ != "tools/call"@,
        "isError"@ != "ping"@,
        "type"@ != "text"@,
        "type"@ != "protocolVersion"@,
        "type"@ != "capabilities"@,
        "type"@ != "serverInfo"@,
        "type"@ != "instructions"@,
        "type"@ != "name"@,
        "type"@ != "title"@,
        "type"@ != "version"@,
        "type"@ != "tools"@,
        "type"@ != "listChanged"@,
        "type"@ != "initialize"@,
        "type"@ != "tools/list"@,
        "type"@ != "tools/call"@,
        "type"@ != "ping"@,
        "text"@ != "protocolVersion"@,
        "text"@ != "capabilities"@,
        "text"@ != "serverInfo"@,
        "text"@ != "instructions"@,
        "text"@ != "name"@,
        "text"@ != "title"@,
        "text"@ != "version"@,
        "text"@ != "tools"@,
        "text"@ != "listChanged"@,
        "text"@ != "initialize"@,
        "text"@ != "tools/list"@,
        "text"@ != "tools/call"@,
        "text"@ != "ping"@,
        "protocolVersion"@ != "capabilities"@,
        "protocolVersion"@ != "serverInfo"@,
        "protocolVersion"@ != "instructions"@,
        "protocolVersion"@ != "name"@,
        "protocolVersion"@ != "title"@,
        "protocolVersion"@ != "version"@,
        "protocolVersion"@ != "tools"@,
        "protocolVersion"@ != "listChanged"@,
        "protocolVersion"@ != "initialize"@,
        "protocolVersion"@ != "tools/list"@,
        "protocolVersion"@ != "tools/call"@,
        "protocolVersion"@ != "ping"@,
        "capabilities"@ != "serverInfo"@,
        "capabilities"@ != "instructions"@,
        "capabilities"@ != "name"@,
        "capabilities"@ != "title"@,
        "capabilities"@ != "version"@,
        "capabilities"@ != "tools"@,
        "capabilities"@ != "listChanged"@,
        "capabilities"@ != "initialize"@,
        "capabilities"@ != "tools/list"@,
        "capabilities"@ != "tools/call"@,
        "capabilities"@ != "ping"@,
        "serverInfo"@ != "instructions"@,
        "serverInfo"@ != "name"@,
        "serverInfo"@ != "title"@,
        "serverInfo"@ != "version"@,
        "serverInfo"@ != "tools"@,
        "serverInfo"@ != "listChanged"@,
        "serverInfo"@ != "initialize"@,
        "serverInfo"@ != "tools/list"@,
        "serverInfo"@ != "tools/call"@,
        "serverInfo"@ != "ping"@,
        "instructions"@ != "name"@,
        "instructions"@ != "title"@,
        "instructions"@ != "version"@,
        "instructions"@ != "tools"@,
        "instructions"@ != "listChanged"@,
        "instructions"@ != "initialize"@,
        "instructions"@ != "tools/list"@,
        "instructions"@ != "tools/call"@,
        "instructions"@ != "ping"@,
        "name"@ != "title"@,
        "name"@ != "version"@,
        "name"@ != "tools"@,
        "name"@ != "listChanged"@,
        "name"@ != "initialize"@,
        "name"@ != "tools/list"@,
        "name"@ != "tools/call"@,
        "name"@ != "ping"@,
        "title"@ != "version"@,
        "title"@ != "tools"@,
        "title"@ != "listChanged"@,
        "title"@ != "initialize"@,
        "title"@ != "tools/list"@,
        "title"@ != "tools/call"@,
        "title"@ != "ping"@,
        "version"@ != "tools"@,
        "version"@ != "listChanged"@,
        "version"@ != "initialize"@,
        "version"@ != "tools/list"@,
        "version"@ != "tools/call"@,
        "version"@ != "ping"@,
        "tools"@ != "listChanged"@,
        "tools"@ != "initialize"@,
        "tools"@ != "tools/list"@,
        "tools"@ != "tools/call"@,
        "tools"@ != "ping"@,
        "listChanged"@ != "initialize"@,
        "listChanged"@ != "tools/list"@,
        "listChanged"@ != "tools/call"@,
        "listChanged"@ != "ping"@,
        "initialize"@ != "tools/list"@,
        "initialize"@ != "tools/call"@,
        "initialize"@ != "ping"@,
        "tools/list"@ != "tools/call"@,
        "tools/list"@ != "ping"@,
        "tools/call"@ != "ping"@,
{
    reveal_strlit("jsonrpc");
    reveal_strlit("id");
    reveal_strlit("result");
    reveal_strlit("error");
    reveal_strlit("code");
    reveal_strlit("message");
    reveal_strlit("content");
    reveal_strlit("structuredContent");
    reveal_strlit("isError");
    reveal_strlit("type");
    reveal_strlit("text");
    reveal_strlit("protocolVersion");
    reveal_strlit("capabilities");
    reveal_strlit("serverInfo");
    reveal_strlit("instructions");
    reveal_strlit("name");
    reveal_strlit("title");
    reveal_strlit("version");
    reveal_strlit("tools");
    reveal_strlit("listChanged");
    reveal_strlit("initialize");
    reveal_strlit("tools/list");
    reveal_strlit("tools/call");
    reveal_strlit("ping");
    assert("jsonrpc"@.len() == 7);
    assert("id"@.len() == 2);
    assert("result"@.len() == 6);
    assert("error"@.len() == 5);
    assert("code"@.len() == 4);
    assert("message"@.len() == 7);
    assert("content"@.len() == 7);
    assert("structuredContent"@.len() == 17);
    assert("isError"@.len() == 7);
    assert("type"@.len() == 4);
    assert("text"@.len() == 4);
    assert("protocolVersion"@.len() == 15);
    assert("capabilities"@.len() == 12);
    assert("serverInfo"@.len() == 10);
    assert("instructions"@.len() == 12);
    assert("name"@.len() == 4);
    assert("title"@.len() == 5);
    assert("version"@.len() == 7);
    assert("tools"@.len() == 5);
    assert("listChanged"@.len() == 11);
    assert("initialize"@.len() == 10);
    assert("tools/list"@.len() == 10);
    assert("tools/call"@.len() == 10);
    assert("ping"@.len() == 4);
    assert("jsonrpc"@[0] != "message"@[0]);
    assert("jsonrpc"@[0] != "content"@[0]);
    assert("jsonrpc"@[0] != "isError"@[0]);
    assert("jsonrpc"@[0] != "version"@[0]);
    assert("error"@[0] != "title"@[0]);
    assert("error"@[0] != "tools"@[0]);
    assert("code"@[0] != "type"@[0]);
    assert("code"@[0] != "text"@[0]);
    assert("code"@[0] != "name"@[0]);
    assert("code"@[0] != "ping"@[0]);
    assert("message"@[0] != "content"@[0]);
    assert("message"@[0] != "isError"@[0]);
    assert("message"@[0] != "version"@[0]);
    assert("content"@[0] != "isError"@[0]);
    assert("content"@[0] != "version"@[0]);
    assert("isError"@[0] != "version"@[0]);
    assert("type"@[1] != "text"@[1]);
    assert("type"@[0] != "name"@[0]);
    assert("type"@[0] != "ping"@[0]);
    assert("text"@[0] != "name"@[0]);
    assert("text"@[0] != "ping"@[0]);
    assert("capabilities"@[0] != "instructions"@[0]);
    assert("serverInfo"@[0] != "initialize"@[0]);
    assert("serverInfo"@[0] != "tools/list"@[0]);
    assert("serverInfo"@[0] != "tools/call"@[0]);
    assert("name"@[0] != "ping"@[0]);
    assert("title"@[1] != "tools"@[1]);
    assert("initialize"@[0] != "tools/list"@[0]);
    assert("initialize"@[0] != "tools/call"@[0]);
    assert("tools/list"@[6] != "tools/call"@[6]);
}

proof fn lemma_tool_names()
    ensures
        "search"@ != "search_files"@,
        "search"@ != "count_matches"@,
        "search"@ != "index_status"@,
        "search"@ != "snapshot_create"@,
        "search"@ != "snapshot_list"@,
        "search"@ != "snapshot_diff"@,
        "search"@ != "snapshot_delete"@,
        "search_files"@ != "count_matches"@,
        "search_files"@ != "index_status"@,
        "search_files"@ != "snapshot_create"@,
        "search_files"@ != "snapshot_list"@,
        "search_files"@ != "snapshot_diff"@,
        "search_files"@ != "snapshot_delete"@,
        "count_matches"@ != "index_status"@,
        "count_matches"@ != "snapshot_create"@,
        "count_matches"@ != "snapshot_list"@,
        "count_matches"@ != "snapshot_diff"@,
        "count_matches"@ != "snapshot_delete"@,
        "index_status"@ != "snapshot_create"@,
        "index_status"@ != "snapshot_list"@,
        "index_status"@ != "snapshot_diff"@,
        "index_status"@ != "snapshot_delete"@,
        "snapshot_create"@ != "snapshot_list"@,
        "snapshot_create"@ != "snapshot_diff"@,
        "snapshot_create"@ != "snapshot_delete"@,
        "snapshot_list"@ != "snapshot_diff"@,
        "snapshot_list"@ != "snapshot_delete"@,
        "snapshot_diff"@ != "snapshot_delete"@,
{
    reveal_strlit("search");
    reveal_strlit("search_files");
    reveal_strlit("count_matches");
    reveal_strlit("index_status");
    reveal_strlit("snapshot_create");
    reveal_strlit("snapshot_list");
    reveal_strlit("snapshot_diff");
    reveal_strlit("snapshot_delete");
    assert("search"@.len() == 6);
    assert("search_files"@.len() == 12);
    assert("count_matches"@.len() == 13);
    assert("index_status"@.len() == 12);
    assert("snapshot_create"@.len() == 15);
    assert("snapshot_list"@.len() == 13);
    assert("snapshot_diff"@.len() == 13);
    assert("snapshot_delete"@.len() == 15);
    assert("search_files"@[0] != "index_status"@[0]);
    assert("count_matches"@[0] != "snapshot_list"@[0]);
    assert("count_matches"@[0] != "snapshot_diff"@[0]);
    assert("snapshot_create"@[9] != "snapshot_delete"@[9]);
    assert("snapshot_list"@[9] != "snapshot_diff"@[9]);
}

/// A call runs the tool that it names, with the arguments that it gives, under
/// the id of the call; one that names no tool is answered that there is none.
pub proof fn law_calls_run_the_tool_they_name(id: JsonTree, params: JsonTree, name: Seq<char>, arguments: JsonTree)
    requires
        params.field_text("name"@) == Some(name),
        params.field("arguments"@) == Some(arguments),
    ensures
        name == "search"@ ==> call_of(id, params) == StepView::Run(id, Tool::Search, arguments),
        name == "search_files"@ ==> call_of(id, params) == StepView::Run(id, Tool::SearchFiles, arguments),
        name == "count_matches"@ ==> call_of(id, params) == StepView::Run(id, Tool::CountMatches, arguments),
        name == "index_status"@ ==> call_of(id, params) == StepView::Run(id, Tool::IndexStatus, arguments),
        name == "snapshot_create"@ ==> call_of(id, params) == StepView::Run(id, Tool::SnapshotCreate, arguments),
        name == "snapshot_list"@ ==> call_of(id, params) == StepView::Run(id, Tool::SnapshotList, arguments),
        name == "snapshot_diff"@ ==> call_of(id, params) == StepView::Run(id, Tool::SnapshotDiff, arguments),
        name == "snapshot_delete"@ ==> call_of(id, params) == StepView::Run(id, Tool::SnapshotDelete, arguments),
        !(call_of(id, params) is Run) ==> call_of(id, params) == StepView::Reply(
            success_tree(id, result_tree(Err("unknown tool `"@ + name + "`"@))),
        ),
{
    lemma_tool_names();
}

/// A call without arguments runs its tool with none.
pub proof fn law_calls_may_have_no_arguments(id: JsonTree, params: JsonTree)
    requires
        params.field("arguments"@) is None,
    ensures
        call_of(id, params) matches StepView::Run(under, _, arguments) ==> under == id && arguments
            == JsonTree::Object(Map::empty()),
{
}

/// A request is answered by its method, under its id: with nothing to a ping,
/// with what is spoken to an opening, and with an error of the protocol to a
/// method that is not known. A call of a tool is run.
pub proof fn law_requests_are_answered_by_their_method(
    message: JsonTree,
    id: JsonTree,
    method: Seq<char>,
    version: Seq<char>,
)
    requires
        message is Object,
        message.field("id"@) == Some(id),
        message.field_text("method"@) == Some(method),
    ensures
        ({
            let step = message_step(message, version);
            let params = match message.field("params"@) {
                Some(params) => params,
                None => JsonTree::Null,
            };
            &&& method == "tools/call"@ ==> step == call_of(id, params)
            &&& method == "ping"@ ==> (step matches StepView::Reply(t) && t.field("id"@) == Some(id)
                && t.field("result"@) == Some(JsonTree::Object(Map::empty())))
            &&& method == "initialize"@ ==> (step matches StepView::Reply(t) && t.field("id"@)
                == Some(id) && t.field("result"@) == Some(initialize_tree(params, version)))
            &&& method == "tools/list"@ ==> (step matches StepView::Reply(t) && t.field("id"@)
                == Some(id) && (t.field("result"@) matches Some(r) && r.field_list("tools"@) == Some(
                crate::mcp_tools::tool_trees(),
            )))
            &&& method != "tools/call"@ && method != "ping"@ && method != "initialize"@ && method
                != "tools/list"@ ==> (step matches StepView::Reply(t) && t.field("id"@) == Some(id)
                && t.field("result"@) is None && (t.field("error"@) matches Some(e) && e.field(
                "code"@,
            ) == Some(JsonTree::negative((-32601) as i64)) && e.field_text("message"@) == Some(
                "unknown method `"@ + method + "`"@,
            )))
        }),
{
    lemma_message_keys();
}

/// A line that is no JSON is answered with the parser's words, and a message
/// that is no object with an error too, under no id.
pub proof fn law_bad_messages_are_answered_with_an_error(line: Seq<char>, version: Seq<char>)
    ensures
        json_parsed(line) matches Err(words) ==> (line_step(line, version) matches StepView::Reply(t)
            && t.field("id"@) == Some(JsonTree::Null) && (t.field("error"@) matches Some(e)
            && e.field("code"@) == Some(JsonTree::negative((-32700) as i64)) && e.field_text("message"@)
            == Some(words))),
        json_parsed(line) matches Ok(tree) && !(tree is Object) ==> (line_step(
            line,
            version,
        ) matches StepView::Reply(t) && t.field("id"@) == Some(JsonTree::Null) && (t.field(
            "error"@,
        ) matches Some(e) && e.field("code"@) == Some(JsonTree::negative((-32600) as i64)))),
{
    lemma_message_keys();
}

/// The opening of a session names this program and its version, and says that it
/// has tools.
pub proof fn law_sessions_open_with_a_name(params: JsonTree, version: Seq<char>)
    ensures
        ({
            let t = initialize_tree(params, version);
            &&& t.field("serverInfo"@) matches Some(s) && s.field_text("name"@) == Some("tgrep"@)
                && s.field_text("version"@) == Some(version)
            &&& t.field("capabilities"@) matches Some(c) && c.field("tools"@) is Some
            &&& t.field_text("instructions"@) is Some
            &&& params.field_text("protocolVersion"@) == Some("2025-06-18"@) ==> t.field_text(
                "protocolVersion"@,
            ) == Some("2025-06-18"@)
            &&& params.field_text("protocolVersion"@) is None ==> t.field_text("protocolVersion"@)
                == Some("2025-11-25"@)
        }),
{
    lemma_message_keys();
    reveal_strlit("");
    reveal_strlit("2025-11-25");
    reveal_strlit("2025-06-18");
    reveal_strlit("2025-03-26");
    reveal_strlit("2024-11-05");
    let all = crate::mcp::protocol_versions();
    assert(all[1] == "2025-06-18"@);
    assert(""@.len() == 0);
    assert("2025-11-25"@.len() == 10 && "2025-06-18"@.len() == 10 && "2025-03-26"@.len() == 10
        && "2024-11-05"@.len() == 10);
    if all.contains(""@) {
        let i = choose|i: int| 0 <= i < all.len() && all[i] == ""@;
        assert(all[i].len() == 10);
    }
}

/// The result of a tool carries its text and its data; that of one that failed
/// carries what went wrong and says so.
pub proof fn law_results_carry_what_a_tool_said(done: Result<ToolOutputView, Seq<char>>)
    ensures
        ({
            let t = result_tree(done);
            &&& t.field_list("content"@) matches Some(items) && items.len() == 1
                && items[0].field_text("type"@) == Some("text"@) && items[0].field_text("text"@)
                == Some(
                match done {
                    Ok(output) => output.text,
                    Err(message) => "tgrep: "@ + message,
                },
            )
            &&& t.field("structuredContent"@) == (match done {
                Ok(output) => Some(output.structured),
                Err(_) => None,
            })
            &&& t.field_bool("isError"@) == Some(done is Err)
        }),
{
    lemma_message_keys();
}

/// What is said of the index: with a server, what the server says; without one,
/// that it answers only where it is complete, covers hidden files and has the
/// current format; and without an index, that everything is scanned.
pub proof fn law_the_state_of_the_index_is_what_is_known(
    reply: JsonTree,
    meta: Option<MetaCoverage>,
    origin: ServerOrigin,
    index_dir: Seq<char>,
    server_error: Option<Seq<char>>,
)
    ensures
        ({
            let with = status_of(Some(reply), meta, origin, index_dir, server_error);
            let without = status_of(None, meta, origin, index_dir, server_error);
            let indexing = reply.field_bool("indexing"@) == Some(true);
            let covers = reply.field_bool("hidden_complete"@) == Some(true);
            &&& with.readiness == IndexReadiness::Building <==> indexing
            &&& with.readiness == IndexReadiness::Indexed <==> !indexing && covers
            &&& with.readiness == IndexReadiness::Scanning <==> !indexing && !covers
            &&& with.server == Some(reply)
            &&& with.note is None <==> with.readiness == IndexReadiness::Indexed
            &&& without.server is None
            &&& without.readiness == IndexReadiness::Indexed <==> (meta matches Some(m)
                && m.complete && m.hidden_complete && m.current_format)
            &&& without.readiness != IndexReadiness::Building
            &&& without.index_updated_at == (match meta {
                Some(m) => Some(m.updated_at),
                None => None,
            })
            &&& without.note is Some
            &&& with.origin == origin && without.origin == origin
            &&& with.server_error == server_error && without.server_error == server_error
        }),
{
}

/// While an index is built, how far it is is said.
pub proof fn law_progress_is_told(reply: JsonTree, done: u64, total: u64)
    requires
        reply.field_bool("indexing"@) == Some(true),
        reply.field_unsigned("index_progress"@) == Some(done),
        reply.field_unsigned("index_total"@) == Some(total),
        total > 0,
    ensures
        server_note(reply) matches Some(note) && occurs(
            note,
            decimal(done as nat) + "/"@ + decimal(total as nat) + " files"@,
        ),
{
    let head = "initial index "@;
    let part = decimal(done as nat) + "/"@ + decimal(total as nat) + " files"@;
    let long = " files; queries scan the tree until it completes"@;
    let tail = "; queries scan the tree until it completes"@;
    reveal_strlit(" files; queries scan the tree until it completes");
    reveal_strlit("; queries scan the tree until it completes");
    reveal_strlit(" files");
    assert(long =~= " files"@ + tail);
    let note = server_note(reply)->0;
    assert(note =~= head + part + tail);
    lemma_occurs(head, part, tail);
}

/// A query is refused only where it would scan the whole root, nobody allowed
/// that, and an index is on its way.
pub proof fn law_whole_scans_wait_for_the_index(
    s: IndexStatusView,
    whole_root: bool,
    allow_scan: bool,
)
    ensures
        is_refused(s, whole_root, allow_scan) <==> whole_root && !allow_scan && (s.readiness
            == IndexReadiness::Building || (s.readiness == IndexReadiness::Scanning && s.origin
            == ServerOrigin::Embedded && s.server is None && s.server_error is None)),
{
}

/// A query looks at what it asks for: the root where it asks for nothing, and
/// else the path as it resolves, if that is the root or below it.
pub proof fn law_queries_look_at_what_they_ask_for(
    root: Seq<char>,
    asked: Seq<char>,
    resolved: Result<Seq<char>, Seq<char>>,
    rest: Seq<char>,
)
    requires
        trimmed(asked).len() > 0,
        root.len() > 0,
        root.last() != '/',
    ensures
        scope_result(root, '/', None, resolved) == Ok::<Seq<char>, Seq<char>>(root),
        resolved is Err ==> scope_result(root, '/', Some(asked), resolved) is Err,
        scope_result(root, '/', Some(asked), Ok(root)) == Ok::<Seq<char>, Seq<char>>(root),
        scope_result(root, '/', Some(asked), Ok(root + seq!['/'] + rest)) == Ok::<
            Seq<char>,
            Seq<char>,
        >(root + seq!['/'] + rest),
        resolved matches Ok(path) && path != root && !(path.len() > root.len() && path.take(
            root.len() as int,
        ) == root && path[root.len() as int] == '/') ==> scope_result(
            root,
            '/',
            Some(asked),
            resolved,
        ) is Err,
{
    reveal_strlit("/");
    let low = crate::state::below(root);
    assert(root.skip(root.len() - 1)[0] == root.last());
    assert(low =~= root.push('/'));
    lemma_same_slashes(root);
    let inner = root + seq!['/'] + rest;
    lemma_same_slashes(inner);
    assert(inner.take(low.len() as int) =~= low);
    if let Ok(path) = resolved {
        lemma_same_slashes(path);
        if crate::text::opens(path, low) {
            assert(path.take(root.len() as int) =~= root) by {
                assert forall|i: int| 0 <= i < root.len() implies path[i] == root[i] by {
                    assert(path.take(low.len() as int)[i] == low[i]);
                }
            }
            assert(path[root.len() as int] == '/') by {
                assert(path.take(low.len() as int)[root.len() as int] == low[root.len() as int]);
            }
        }
    }
}

proof fn lemma_same_slashes(s: Seq<char>)
    ensures
        crate::paths::with_slashes(s, '/') == s,
{
    assert(crate::paths::with_slashes(s, '/') =~= s);
}

/// What a query finds is printed relative to the root: below a directory with
/// its path in front, and for a file as its path.
pub proof fn law_finds_are_printed_relative_to_the_root(root: Seq<char>, rel: Seq<char>)
    requires
        root.len() > 0,
        root.last() != '/',
        !rel.contains('\\'),
    ensures
        display_of(root, root, false) == DisplayView::Bare,
        display_of(root, root + seq!['/'] + rel, true) == DisplayView::Exact(rel),
        display_of(root, root + seq!['/'] + rel, false) == DisplayView::Prefix(rel.push('/')),
{
    reveal_strlit("/");
    let low = crate::state::below(root);
    assert(root.skip(root.len() - 1)[0] == root.last());
    assert(low =~= root.push('/'));
    let path = root + seq!['/'] + rel;
    assert(path.take(low.len() as int) =~= low);
    assert(path.len() > root.len());
    assert(path.skip(low.len() as int) =~= rel);
    assert forall|i: int| 0 <= i < rel.len() implies rel[i] != '\\' by {
        assert(rel.contains(rel[i]));
    }
    assert(crate::text::replaced(rel, '\\', '/') =~= rel);
    assert(rel + "/"@ =~= rel.push('/'));
}

/// A snapshot walks the tree without the index, by the rules that the session
/// was started with, and without any limit of size.
pub proof fn law_snapshots_walk_without_the_index(state: McpState, no_ignore: bool)
    ensures
        ({
            let w = state.walk_for(no_ignore);
            &&& w.no_ignore <==> no_ignore || state.opts.no_ignore
            &&& w.exclude_paths.len() == 1 && w.exclude_paths[0] == state.index_dir@
            &&& w.exclude_dirs.len() == state.opts.exclude_dirs@.len() && forall|i: int|
                0 <= i < w.exclude_dirs.len() ==> #[trigger] w.exclude_dirs[i]
                    == state.opts.exclude_dirs@[i]@
            &&& w.no_require_git == state.opts.no_require_git
            &&& w.max_file_size is None
        }),
{
}

/// What a server says of itself is read field by field; what it may leave out is
/// missing, or zero, or not so.
pub proof fn law_server_status_is_read_field_by_field(answer: JsonTree)
    requires
        answer is Object,
    ensures
        parsed_status(answer) matches Some(s) ==> {
            &&& answer.field_unsigned("num_files"@) == Some(s.num_files)
            &&& answer.field_unsigned("num_trigrams"@) == Some(s.num_trigrams)
            &&& answer.field_unsigned("cache_size"@) == Some(s.cache_size)
            &&& answer.field_unsigned("cache_capacity"@) == Some(s.cache_capacity)
            &&& answer.field_bool("watcher_active"@) == Some(s.watcher_active)
            &&& answer.field_text("watch_mode_requested"@) == s.watch_mode_requested
            &&& answer.field_text("watch_mode_active"@) == s.watch_mode_active
            &&& answer.field_text("watch_fallback_reason"@) == s.watch_fallback_reason
            &&& answer.field_text("last_reconcile_error"@) == s.last_reconcile_error
            &&& answer.field_unsigned("watch_budget"@) == s.watch_budget
            &&& answer.field_unsigned("poll_interval_secs"@) == s.poll_interval_secs
            &&& answer.field_unsigned("last_reconcile_at"@) == s.last_reconcile_at
            &&& answer.field_unsigned("last_reconcile_duration_ms"@) == s.last_reconcile_duration_ms
            &&& answer.field_bool("reconcile_pending"@) == s.reconcile_pending
            &&& answer.field_bool("reconcile_overdue"@) == s.reconcile_overdue
            &&& answer.field_bool("hidden_complete"@) == s.hidden_complete
            &&& s.reconcile_running <==> answer.field_bool("reconcile_running"@) == Some(true)
            &&& s.indexing <==> answer.field_bool("indexing"@) == Some(true)
            &&& answer.field_unsigned("index_progress"@) matches Some(n) ==> s.index_progress == n
            &&& answer.field_unsigned("index_progress"@) is None ==> s.index_progress == 0
            &&& answer.field_unsigned("index_total"@) matches Some(n) ==> s.index_total == n
            &&& answer.field_unsigned("index_total"@) is None ==> s.index_total == 0
        },
{
}

/// What is printed of a server gives its root, process and port, how much it
/// indexes and caches, whether it watches and how it keeps up, whether it is
/// indexing and how far it is, and whether hidden files are covered: only where
/// it says so.
pub proof fn law_server_status_is_printed(
    root: Seq<char>,
    pid: u64,
    port: u64,
    s: StatusView,
    now: u64,
)
    ensures
        server_status_text(root, pid, port, s, now) == "Server status for "@ + root
            + "\n  PID:        "@ + decimal(pid as nat) + "\n  Port:       "@ + decimal(port as nat)
            + "\n  Files:      "@ + decimal(s.num_files as nat) + "\n  Trigrams:   "@ + decimal(
            s.num_trigrams as nat,
        ) + "\n  Cache:      "@ + decimal(s.cache_size as nat) + "/"@ + decimal(
            s.cache_capacity as nat,
        ) + "\n  Watcher:    "@ + (if s.watcher_active {
            "active"@
        } else {
            "inactive"@
        }) + "\n"@ + crate::status::refresh_text(s, now) + "  Indexing:   "@ + (if s.indexing {
            decimal(s.index_progress as nat) + "/"@ + decimal(s.index_total as nat) + " files"@
        } else {
            "complete"@
        }) + "\n  Hidden coverage: "@ + (if s.hidden_complete == Some(true) {
            "complete"@
        } else {
            "unavailable (queries scan)"@
        }) + "\n"@,
{
}

/// A line that is printed where there is something to say.
pub open spec fn told(label: Seq<char>, value: Option<Seq<char>>) -> Seq<char> {
    match value {
        Some(value) => label + value + "\n"@,
        None => Seq::empty(),
    }
}

/// A number with its unit, where there is one.
pub open spec fn counted(n: Option<u64>, unit: Seq<char>) -> Option<Seq<char>> {
    match n {
        Some(n) => Some(decimal(n as nat) + unit),
        None => None,
    }
}

/// A yes or a no, where it is known.
pub open spec fn affirmed(b: Option<bool>) -> Option<Seq<char>> {
    match b {
        Some(b) => Some(
            if b {
                "yes"@
            } else {
                "no"@
            },
        ),
        None => None,
    }
}

/// How a server keeps up with the tree is printed line by line, as far as it
/// says: its mode, and the one that was asked for, why it fell back, its budget
/// and interval, and when, how long and with what error it last compared.
pub proof fn law_keeping_up_is_printed_line_by_line(s: StatusView, now: u64)
    requires
        s.watch_mode_active is Some,
    ensures
        ({
            let mode = "  Watch mode: "@ + s.watch_mode_active->0 + (match s.watch_mode_requested {
                Some(requested) => " (requested: "@ + requested + ")"@,
                None => Seq::empty(),
            }) + "\n"@;
            let running = "  Reconcile:  "@ + (if s.reconcile_running {
                "running"@
            } else {
                "idle"@
            }) + "\n"@ + (if s.last_reconcile_at is None {
                "  Last successful reconcile: never\n"@
            } else {
                Seq::empty()
            });
            let ago = match s.last_reconcile_at {
                Some(at) => Some(
                    crate::snapshot::age_text(
                        if now >= at {
                            (now - at) as u64
                        } else {
                            0
                        },
                    ),
                ),
                None => None,
            };
            crate::status::refresh_text(s, now) == mode + told(
                "  Fallback:   "@,
                s.watch_fallback_reason,
            ) + told("  Watch budget: "@, counted(s.watch_budget, Seq::empty())) + told(
                "  Poll interval: "@,
                counted(s.poll_interval_secs, "s (after completion)"@),
            ) + running + told("  Last successful reconcile: "@, ago) + told(
                "  Reconcile pending: "@,
                affirmed(s.reconcile_pending),
            ) + told("  Reconcile overdue: "@, affirmed(s.reconcile_overdue)) + told(
                "  Last reconcile duration: "@,
                counted(s.last_reconcile_duration_ms, "ms"@),
            ) + told("  Last reconcile error: "@, s.last_reconcile_error)
        }),
{
    lemma_number_told("  Watch budget: "@, s.watch_budget, Seq::empty());
    lemma_number_told("  Poll interval: "@, s.poll_interval_secs, "s (after completion)"@);
    lemma_number_told("  Last reconcile duration: "@, s.last_reconcile_duration_ms, "ms"@);
}

proof fn lemma_number_told(label: Seq<char>, n: Option<u64>, unit: Seq<char>)
    ensures
        crate::status::number_line(label, n, unit) == told(label, counted(n, unit)),
{
    if let Some(n) = n {
        assert(label + decimal(n as nat) + unit + "\n"@ =~= label + (decimal(n as nat) + unit)
            + "\n"@);
    }
}

/// What is printed of an index gives its root, how much it holds, its age, and
/// whether hidden files are covered.
pub proof fn law_index_status_is_printed(
    root: Seq<char>,
    meta: MetaCounts,
    hidden_complete: bool,
    now: u64,
)
    ensures
        ({
            let text = index_status_text(root, meta, hidden_complete, now);
            let created = if now >= meta.created_at {
                (now - meta.created_at) as u64
            } else {
                0
            };
            let updated = if now >= meta.updated_at {
                (now - meta.updated_at) as u64
            } else {
                0
            };
            text == "Index status for "@ + root + "\n  Files:      "@ + decimal(
                meta.num_files as nat,
            ) + "\n  Trigrams:   "@ + decimal(meta.num_trigrams as nat) + "\n  Created:    "@
                + crate::snapshot::age_text(created) + "\n  Updated:    "@
                + crate::snapshot::age_text(updated)
                + "\n  Server:     not running\n  Hidden coverage: "@ + (if hidden_complete {
                "complete"@
            } else {
                "unavailable (queries scan)"@
            }) + "\n"@
        }),
{
}

/// An age is told in the largest unit that it fills: seconds, minutes, hours or
/// days.
pub proof fn law_ages_are_told_in_the_largest_unit(seconds: u64)
    ensures
        ({
            let text = crate::snapshot::age_text(seconds);
            &&& seconds < 60 ==> text == decimal(seconds as nat) + "s ago"@
            &&& 60 <= seconds < 60 * 60 ==> text == decimal((seconds / 60) as nat) + "m ago"@
            &&& 60 * 60 <= seconds < 24 * 60 * 60 ==> text == decimal((seconds / 3600) as nat)
                + "h ago"@
            &&& 24 * 60 * 60 <= seconds ==> text == decimal((seconds / 86400) as nat) + "d ago"@
        }),
{
}

/// A path that is typed in quotes is the path inside them, and white space
/// around it does not count.
pub proof fn law_quotes_and_space_around_paths_do_not_count(s: Seq<char>, quote: char)
    requires
        quote == '"' || quote == '\'',
    ensures
        target_text(seq![quote] + s + seq![quote]) == target_text(s),
        s.len() > 0 && s[0] != '"' && s[0] != '\'' && !crate::text::is_space(s[0])
            && !crate::text::is_space(s.last()) ==> target_text(s) == s,
{
    let all = seq![quote] + s + seq![quote];
    assert(all[0] == quote && all.last() == quote);
    assert(trimmed(all) == all);
    assert(all.subrange(1, all.len() - 1) =~= s);
}

/// Without a path the current directory is searched, and else every path that is
/// given, in order.
pub proof fn law_every_given_path_is_searched(given: Seq<Seq<char>>, i: int)
    ensures
        given.len() == 0 ==> targets_of(given).len() == 1 && targets_of(given)[0].path == "."@
            && targets_of(given)[0].typed.len() == 0,
        given.len() > 0 ==> targets_of(given).len() == given.len(),
        0 <= i < given.len() ==> targets_of(given)[i].path == target_text(given[i])
            && targets_of(given)[i].typed == target_text(given[i]),
{
}

/// What is found is printed below the path as it was typed.
pub proof fn law_finds_are_printed_below_what_was_typed(typed: Seq<char>, separator: char)
    ensures
        typed.len() == 0 ==> target_display(typed, true, separator) == DisplayView::Bare
            && target_display(typed, false, separator) == DisplayView::Bare,
        typed.len() > 0 ==> target_display(typed, true, separator) == DisplayView::Exact(typed),
        typed.len() > 0 && typed.last() != '/' && typed.last() != '\\' ==> target_display(
            typed,
            false,
            separator,
        ) == DisplayView::Prefix(typed.push(separator)),
        typed.len() > 0 && (typed.last() == '/' || typed.last() == '\\') ==> target_display(
            typed,
            false,
            separator,
        ) == DisplayView::Prefix(typed),
{
}

/// Names of files are left out where that is asked for, and where a single file
/// is searched and nothing asks for its name.
pub proof fn law_names_are_left_out_of_single_files(
    no_filename: bool,
    with_filename: bool,
    vimgrep: bool,
    targets: nat,
    first_is_file: bool,
)
    ensures
        ({
            let hidden = hides_names(no_filename, with_filename, vimgrep, targets, first_is_file);
            &&& no_filename ==> hidden
            &&& !no_filename && (with_filename || vimgrep || targets != 1 || !first_is_file)
                ==> !hidden
            &&& !with_filename && !vimgrep && targets == 1 && first_is_file ==> hidden
        }),
{
}

/// A program ends with zero where something was found and nothing went wrong,
/// with one where nothing was found, and with two where something went wrong.
pub proof fn law_programs_end_with_zero_one_or_two(searched: Seq<Searched>)
    ensures
        ({
            let bad = searched.contains(Searched::Failed) || searched.contains(Searched::Missing);
            let good = searched.contains(Searched::Done(true));
            &&& bad ==> code_of(false, searched) == 2
            &&& !bad && good ==> code_of(false, searched) == 0
            &&& !bad && !good ==> code_of(false, searched) == 1
            &&& !searched.contains(Searched::Failed) && good ==> code_of(true, searched) == 0
            &&& !bad && !good ==> code_of(true, searched) == 1
        }),
{
    crate::targets::law_exit_codes(searched);
    if !searched.contains(Searched::Failed) {
        crate::targets::law_quiet_exit_codes(searched);
    }
}

/// A listing ends with zero, or with two where a path was missing.
pub proof fn law_listings_end_with_zero_or_two(found: Seq<bool>)
    ensures
        found.contains(false) ==> listing_over(found).listed_code() == 2,
        !found.contains(false) ==> listing_over(found).listed_code() == 0,
    decreases found.len(),
{
    if found.len() > 0 {
        let front = found.drop_last();
        law_listings_end_with_zero_or_two(front);
        if front.contains(false) {
            let i = choose|i: int| 0 <= i < front.len() && front[i] == false;
            assert(found[i] == false);
        }
        if found.contains(false) {
            let i = choose|i: int| 0 <= i < found.len() && found[i] == false;
            if i < front.len() {
                assert(front[i] == false);
            }
        }
        if !found.last() {
            assert(found[found.len() - 1] == false);
        }
    }
}

/// A session takes over a server that is there, starts one where it may, and
/// else does without.
pub proof fn law_sessions_use_the_server_that_is_there(auto_index: bool)
    ensures
        start_of(true, auto_index) == StartAction::Adopt,
        start_of(false, true) == StartAction::Spawn,
        start_of(false, false) == StartAction::Nothing,
{
}

/// A query waits only while an index is on its way and time is left, never
/// longer than that, and looks again every tenth of a second.
pub proof fn law_queries_wait_no_longer_than_asked(s: IndexStatusView, waited: u64, limit: u64)
    ensures
        ({
            let on_its_way = s.readiness == IndexReadiness::Building || (s.readiness
                == IndexReadiness::Scanning && s.origin == ServerOrigin::Embedded
                && s.server is None && s.server_error is None);
            match wait_step(s, waited, limit) {
                WaitStep::Done => !on_its_way || waited >= limit,
                WaitStep::Again(ms) => on_its_way && waited < limit && 0 < ms <= 100 && waited + ms
                    <= limit && (limit - waited >= 100 ==> ms == 100),
            }
        }),
{
}

/// What answered is said in brackets, with what there is to note of it.
pub proof fn law_answers_end_with_what_answered(s: IndexStatusView)
    ensures
        ({
            let name = match s.readiness {
                IndexReadiness::Indexed => "indexed"@,
                IndexReadiness::Building => "building"@,
                IndexReadiness::Scanning => "scanning"@,
            };
            &&& s.note matches Some(note) ==> crate::answers::status_text(s) == "["@ + name + ": "@
                + note + "]"@
            &&& s.note is None ==> crate::answers::status_text(s) == "["@ + name + "]"@
        }),
{
}

/// What is said of the index gives its root, where it is kept, its state and
/// what there is to note.
pub proof fn law_index_texts_say_what_is_known(
    s: IndexStatusView,
    root: Seq<char>,
    index_dir: Seq<char>,
)
    ensures
        crate::answers::index_status_text(s, root, index_dir) == "root: "@ + root + "\nindex: "@
            + index_dir + "\nstate: "@ + (match s.readiness {
            IndexReadiness::Indexed => "indexed"@,
            IndexReadiness::Building => "building"@,
            IndexReadiness::Scanning => "scanning"@,
        }) + (match s.note {
            Some(note) => "\nnote: "@ + note,
            None => Seq::empty(),
        }) + "\n"@,
{
}

/// Where nothing was found that is said, with what answered.
pub proof fn law_empty_searches_say_so(p: crate::events::ParsedView, cut: bool, status: Seq<char>)
    requires
        p.hits.len() == 0,
    ensures
        crate::answers::matches_text(p, cut, status) == "No matches. "@ + status + "\n"@,
{
}

/// A server is read as far as it says: what every server says is enough.
pub proof fn law_the_least_a_server_says_is_enough(
    answer: JsonTree,
    files: u64,
    trigrams: u64,
    size: u64,
    capacity: u64,
    active: bool,
)
    requires
        answer == JsonTree::Object(
            Map::<Seq<char>, JsonTree>::empty().insert(
                "num_files"@,
                JsonTree::unsigned(files),
            ).insert("num_trigrams"@, JsonTree::unsigned(trigrams)).insert(
                "cache_size"@,
                JsonTree::unsigned(size),
            ).insert("cache_capacity"@, JsonTree::unsigned(capacity)).insert(
                "watcher_active"@,
                JsonTree::Bool(active),
            ),
        ),
    ensures
        parsed_status(answer) matches Some(s) && s.num_files == files && s.num_trigrams == trigrams
            && s.cache_size == size && s.cache_capacity == capacity && s.watcher_active == active
            && !s.indexing && s.hidden_complete is None,
{
    lemma_status_keys();
}

/// A refusal names the state of the index, and how to wait, to narrow or to scan
/// all the same.
pub proof fn law_refusals_say_what_to_do(s: IndexStatusView)
    ensures
        occurs(
            crate::state::refusal_text(s),
            "the index is not ready ("@ + (match s.readiness {
                IndexReadiness::Indexed => "indexed"@,
                IndexReadiness::Building => "building"@,
                IndexReadiness::Scanning => "scanning"@,
            }),
        ),
{
    let text = crate::state::refusal_text(s);
    let head = "the index is not ready ("@ + s.readiness.name();
    let rest = text.skip(head.len() as int);
    let none = Seq::<char>::empty();
    assert(text =~= none + head + rest) by {
        assert(text.take(head.len() as int) =~= head);
    }
    lemma_occurs(none, head, rest);
}

/// What is missing is named, with the reason, behind the name of the program.
pub proof fn law_missing_paths_are_named(path: Seq<char>, reason: Seq<char>)
    ensures
        crate::targets::missing_text(path, reason) == "tgrep: "@ + path
            + ": IO error for operation on "@ + path + ": "@ + reason,
{
}

/// A server is asked for its status by name.
pub proof fn law_status_is_asked_for_by_name()
    ensures
        ({
            let t = crate::status::status_request_tree();
            &&& t.field_text("method"@) == Some("status"@)
            &&& t.field_text("jsonrpc"@) == Some("2.0"@)
            &&& t.field_unsigned("id"@) == Some(1u64)
        }),
{
    reveal_strlit("method");
    reveal_strlit("jsonrpc");
    reveal_strlit("id");
    assert("method"@.len() == 6 && "jsonrpc"@.len() == 7 && "id"@.len() == 2);
}
proof fn lemma_status_keys()
    ensures
        "num_files"@ != "num_trigrams"@,
        "num_files"@ != "cache_size"@,
        "num_files"@ != "cache_capacity"@,
        "num_files"@ != "watcher_active"@,
        "num_files"@ != "watch_mode_requested"@,
        "num_files"@ != "watch_mode_active"@,
        "num_files"@ != "watch_fallback_reason"@,
        "num_files"@ != "watch_budget"@,
        "num_files"@ != "poll_interval_secs"@,
        "num_files"@ != "last_reconcile_at"@,
        "num_files"@ != "last_reconcile_duration_ms"@,
        "num_files"@ != "last_reconcile_error"@,
        "num_files"@ != "reconcile_running"@,
        "num_files"@ != "reconcile_pending"@,
        "num_files"@ != "reconcile_overdue"@,
        "num_files"@ != "indexing"@,
        "num_files"@ != "index_progress"@,
        "num_files"@ != "index_total"@,
        "num_files"@ != "hidden_complete"@,
        "num_trigrams"@ != "cache_size"@,
        "num_trigrams"@ != "cache_capacity"@,
        "num_trigrams"@ != "watcher_active"@,
        "num_trigrams"@ != "watch_mode_requested"@,
        "num_trigrams"@ != "watch_mode_active"@,
        "num_trigrams"@ != "watch_fallback_reason"@,
        "num_trigrams"@ != "watch_budget"@,
        "num_trigrams"@ != "poll_interval_secs"@,
        "num_trigrams"@ != "last_reconcile_at"@,
        "num_trigrams"@ != "last_reconcile_duration_ms"@,
        "num_trigrams"@ != "last_reconcile_error"@,
        "num_trigrams"@ != "reconcile_running"@,
        "num_trigrams"@ != "reconcile_pending"@,
        "num_trigrams"@ != "reconcile_overdue"@,
        "num_trigrams"@ != "indexing"@,
        "num_trigrams"@ != "index_progress"@,
        "num_trigrams"@ != "index_total"@,
        "num_trigrams"@ != "hidden_complete"@,
        "cache_size"@ != "cache_capacity"@,
        "cache_size"@ != "watcher_active"@,
        "cache_size"@ != "watch_mode_requested"@,
        "cache_size"@ != "watch_mode_active"@,
        "cache_size"@ != "watch_fallback_reason"@,
        "cache_size"@ != "watch_budget"@,
        "cache_size"@ != "poll_interval_secs"@,
        "cache_size"@ != "last_reconcile_at"@,
        "cache_size"@ != "last_reconcile_duration_ms"@,
        "cache_size"@ != "last_reconcile_error"@,
        "cache_size"@ != "reconcile_running"@,
        "cache_size"@ != "reconcile_pending"@,
        "cache_size"@ != "reconcile_overdue"@,
        "cache_size"@ != "indexing"@,
        "cache_size"@ != "index_progress"@,
        "cache_size"@ != "index_total"@,
        "cache_size"@ != "hidden_complete"@,
        "cache_capacity"@ != "watcher_active"@,
        "cache_capacity"@ != "watch_mode_requested"@,
        "cache_capacity"@ != "watch_mode_active"@,
        "cache_capacity"@ != "watch_fallback_reason"@,
        "cache_capacity"@ != "watch_budget"@,
        "cache_capacity"@ != "poll_interval_secs"@,
        "cache_capacity"@ != "last_reconcile_at"@,
        "cache_capacity"@ != "last_reconcile_duration_ms"@,
        "cache_capacity"@ != "last_reconcile_error"@,
        "cache_capacity"@ != "reconcile_running"@,
        "cache_capacity"@ != "reconcile_pending"@,
        "cache_capacity"@ != "reconcile_overdue"@,
        "cache_capacity"@ != "indexing"@,
        "cache_capacity"@ != "index_progress"@,
        "cache_capacity"@ != "index_total"@,
        "cache_capacity"@ != "hidden_complete"@,
        "watcher_active"@ != "watch_mode_requested"@,
        "watcher_active"@ != "watch_mode_active"@,
        "watcher_active"@ != "watch_fallback_reason"@,
        "watcher_active"@ != "watch_budget"@,
        "watcher_active"@ != "poll_interval_secs"@,
        "watcher_active"@ != "last_reconcile_at"@,
        "watcher_active"@ != "last_reconcile_duration_ms"@,
        "watcher_active"@ != "last_reconcile_error"@,
        "watcher_active"@ != "reconcile_running"@,
        "watcher_active"@ != "reconcile_pending"@,
        "watcher_active"@ != "reconcile_overdue"@,
        "watcher_active"@ != "indexing"@,
        "watcher_active"@ != "index_progress"@,
        "watcher_active"@ != "index_total"@,
        "watcher_active"@ != "hidden_complete"@,
        "watch_mode_requested"@ != "watch_mode_active"@,
        "watch_mode_requested"@ != "watch_fallback_reason"@,
        "watch_mode_requested"@ != "watch_budget"@,
        "watch_mode_requested"@ != "poll_interval_secs"@,
        "watch_mode_requested"@ != "last_reconcile_at"@,
        "watch_mode_requested"@ != "last_reconcile_duration_ms"@,
        "watch_mode_requested"@ != "last_reconcile_error"@,
        "watch_mode_requested"@ != "reconcile_running"@,
        "watch_mode_requested"@ != "reconcile_pending"@,
        "watch_mode_requested"@ != "reconcile_overdue"@,
        "watch_mode_requested"@ != "indexing"@,
        "watch_mode_requested"@ != "index_progress"@,
        "watch_mode_requested"@ != "index_total"@,
        "watch_mode_requested"@ != "hidden_complete"@,
        "watch_mode_active"@ != "watch_fallback_reason"@,
        "watch_mode_active"@ != "watch_budget"@,
        "watch_mode_active"@ != "poll_interval_secs"@,
        "watch_mode_active"@ != "last_reconcile_at"@,
        "watch_mode_active"@ != "last_reconcile_duration_ms"@,
        "watch_mode_active"@ != "last_reconcile_error"@,
        "watch_mode_active"@ != "reconcile_running"@,
        "watch_mode_active"@ != "reconcile_pending"@,
        "watch_mode_active"@ != "reconcile_overdue"@,
        "watch_mode_active"@ != "indexing"@,
        "watch_mode_active"@ != "index_progress"@,
        "watch_mode_active"@ != "index_total"@,
        "watch_mode_active"@ != "hidden_complete"@,
        "watch_fallback_reason"@ != "watch_budget"@,
        "watch_fallback_reason"@ != "poll_interval_secs"@,
        "watch_fallback_reason"@ != "last_reconcile_at"@,
        "watch_fallback_reason"@ != "last_reconcile_duration_ms"@,
        "watch_fallback_reason"@ != "last_reconcile_error"@,
        "watch_fallback_reason"@ != "reconcile_running"@,
        "watch_fallback_reason"@ != "reconcile_pending"@,
        "watch_fallback_reason"@ != "reconcile_overdue"@,
        "watch_fallback_reason"@ != "indexing"@,
        "watch_fallback_reason"@ != "index_progress"@,
        "watch_fallback_reason"@ != "index_total"@,
        "watch_fallback_reason"@ != "hidden_complete"@,
        "watch_budget"@ != "poll_interval_secs"@,
        "watch_budget"@ != "last_reconcile_at"@,
        "watch_budget"@ != "last_reconcile_duration_ms"@,
        "watch_budget"@ != "last_reconcile_error"@,
        "watch_budget"@ != "reconcile_running"@,
        "watch_budget"@ != "reconcile_pending"@,
        "watch_budget"@ != "reconcile_overdue"@,
        "watch_budget"@ != "indexing"@,
        "watch_budget"@ != "index_progress"@,
        "watch_budget"@ != "index_total"@,
        "watch_budget"@ != "hidden_complete"@,
        "poll_interval_secs"@ != "last_reconcile_at"@,
        "poll_interval_secs"@ != "last_reconcile_duration_ms"@,
        "poll_interval_secs"@ != "last_reconcile_error"@,
        "poll_interval_secs"@ != "reconcile_running"@,
        "poll_interval_secs"@ != "reconcile_pending"@,
        "poll_interval_secs"@ != "reconcile_overdue"@,
        "poll_interval_secs"@ != "indexing"@,
        "poll_interval_secs"@ != "index_progress"@,
        "poll_interval_secs"@ != "index_total"@,
        "poll_interval_secs"@ != "hidden_complete"@,
        "last_reconcile_at"@ != "last_reconcile_duration_ms"@,
        "last_reconcile_at"@ != "last_reconcile_error"@,
        "last_reconcile_at"@ != "reconcile_running"@,
        "last_reconcile_at"@ != "reconcile_pending"@,
        "last_reconcile_at"@ != "reconcile_overdue"@,
        "last_reconcile_at"@ != "indexing"@,
        "last_reconcile_at"@ != "index_progress"@,
        "last_reconcile_at"@ != "index_total"@,
        "last_reconcile_at"@ != "hidden_complete"@,
        "last_reconcile_duration_ms"@ != "last_reconcile_error"@,
        "last_reconcile_duration_ms"@ != "reconcile_running"@,
        "last_reconcile_duration_ms"@ != "reconcile_pending"@,
        "last_reconcile_duration_ms"@ != "reconcile_overdue"@,
        "last_reconcile_duration_ms"@ != "indexing"@,
        "last_reconcile_duration_ms"@ != "index_progress"@,
        "last_reconcile_duration_ms"@ != "index_total"@,
        "last_reconcile_duration_ms"@ != "hidden_complete"@,
        "last_reconcile_error"@ != "reconcile_running"@,
        "last_reconcile_error"@ != "reconcile_pending"@,
        "last_reconcile_error"@ != "reconcile_overdue"@,
        "last_reconcile_error"@ != "indexing"@,
        "last_reconcile_error"@ != "index_progress"@,
        "last_reconcile_error"@ != "index_total"@,
        "last_reconcile_error"@ != "hidden_complete"@,
        "reconcile_running"@ != "reconcile_pending"@,
        "reconcile_running"@ != "reconcile_overdue"@,
        "reconcile_running"@ != "indexing"@,
        "reconcile_running"@ != "index_progress"@,
        "reconcile_running"@ != "index_total"@,
        "reconcile_running"@ != "hidden_complete"@,
        "reconcile_pending"@ != "reconcile_overdue"@,
        "reconcile_pending"@ != "indexing"@,
        "reconcile_pending"@ != "index_progress"@,
        "reconcile_pending"@ != "index_total"@,
        "reconcile_pending"@ != "hidden_complete"@,
        "reconcile_overdue"@ != "indexing"@,
        "reconcile_overdue"@ != "index_progress"@,
        "reconcile_overdue"@ != "index_total"@,
        "reconcile_overdue"@ != "hidden_complete"@,
        "indexing"@ != "index_progress"@,
        "indexing"@ != "index_total"@,
        "indexing"@ != "hidden_complete"@,
        "index_progress"@ != "index_total"@,
        "index_progress"@ != "hidden_complete"@,
        "index_total"@ != "hidden_complete"@,
{
    reveal_strlit("num_files");
    reveal_strlit("num_trigrams");
    reveal_strlit("cache_size");
    reveal_strlit("cache_capacity");
    reveal_strlit("watcher_active");
    reveal_strlit("watch_mode_requested");
    reveal_strlit("watch_mode_active");
    reveal_strlit("watch_fallback_reason");
    reveal_strlit("watch_budget");
    reveal_strlit("poll_interval_secs");
    reveal_strlit("last_reconcile_at");
    reveal_strlit("last_reconcile_duration_ms");
    reveal_strlit("last_reconcile_error");
    reveal_strlit("reconcile_running");
    reveal_strlit("reconcile_pending");
    reveal_strlit("reconcile_overdue");
    reveal_strlit("indexing");
    reveal_strlit("index_progress");
    reveal_strlit("index_total");
    reveal_strlit("hidden_complete");
    assert("num_files"@.len() == 9);
    assert("num_trigrams"@.len() == 12);
    assert("cache_size"@.len() == 10);
    assert("cache_capacity"@.len() == 14);
    assert("watcher_active"@.len() == 14);
    assert("watch_mode_requested"@.len() == 20);
    assert("watch_mode_active"@.len() == 17);
    assert("watch_fallback_reason"@.len() == 21);
    assert("watch_budget"@.len() == 12);
    assert("poll_interval_secs"@.len() == 18);
    assert("last_reconcile_at"@.len() == 17);
    assert("last_reconcile_duration_ms"@.len() == 26);
    assert("last_reconcile_error"@.len() == 20);
    assert("reconcile_running"@.len() == 17);
    assert("reconcile_pending"@.len() == 17);
    assert("reconcile_overdue"@.len() == 17);
    assert("indexing"@.len() == 8);
    assert("index_progress"@.len() == 14);
    assert("index_total"@.len() == 11);
    assert("hidden_complete"@.len() == 15);
    assert("num_trigrams"@[0] != "watch_budget"@[0]);
    assert("cache_capacity"@[0] != "watcher_active"@[0]);
    assert("cache_capacity"@[0] != "index_progress"@[0]);
    assert("watcher_active"@[0] != "index_progress"@[0]);
    assert("watch_mode_requested"@[0] != "last_reconcile_error"@[0]);
    assert("watch_mode_active"@[0] != "last_reconcile_at"@[0]);
    assert("watch_mode_active"@[0] != "reconcile_running"@[0]);
    assert("watch_mode_active"@[0] != "reconcile_pending"@[0]);
    assert("watch_mode_active"@[0] != "reconcile_overdue"@[0]);
    assert("last_reconcile_at"@[0] != "reconcile_running"@[0]);
    assert("last_reconcile_at"@[0] != "reconcile_pending"@[0]);
    assert("last_reconcile_at"@[0] != "reconcile_overdue"@[0]);
    assert("reconcile_running"@[10] != "reconcile_pending"@[10]);
    assert("reconcile_running"@[10] != "reconcile_overdue"@[10]);
    assert("reconcile_pending"@[10] != "reconcile_overdue"@[10]);
}

/// What there is to note of an index is said in words.
pub proof fn law_notes_say_why_queries_scan(
    reply: JsonTree,
    meta: MetaCoverage,
    origin: ServerOrigin,
    index_dir: Seq<char>,
)
    ensures
        status_of(None, None, origin, index_dir, None).note == Some(
            "no index at "@ + crate::paths::without_verbatim_prefix(index_dir)
                + "; queries scan every file"@,
        ),
        meta.complete && meta.hidden_complete && meta.current_format ==> status_of(
            None,
            Some(meta),
            origin,
            index_dir,
            None,
        ).note == Some(
            "no server running; answering from the on-disk index, which is a snapshot of its last build"@,
        ),
        !(meta.complete && meta.hidden_complete && meta.current_format) ==> status_of(
            None,
            Some(meta),
            origin,
            index_dir,
            None,
        ).note == Some(
            "on-disk index is incomplete or predates hidden-file coverage; queries scan"@,
        ),
        reply.field_bool("indexing"@) != Some(true) && reply.field_bool("hidden_complete"@) != Some(
            true,
        ) ==> server_note(reply) == Some(
            "server is up but has not published complete file coverage yet; queries scan"@,
        ),
{
}

} // verus!
