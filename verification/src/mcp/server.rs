//! The MCP server's decisions: which answer each JSON-RPC request gets. Reading lines
//! and writing answers is the caller's.

use vstd::prelude::*;

use crate::actions::Context;
use crate::jmap::client::{Exchange, HttpTransport};
use crate::json::{JsonObject, JsonValue, Jv};
use crate::mcp::handler::{self, all_tool_heads, lists_fields, lists_tools, lists_properties, ToolCallRecord};
use crate::mcp::types::{JsonRpcResponse, METHOD_NOT_FOUND, PARSE_ERROR};
use crate::text;

verus! {

/// The answer to a line that is not a JSON-RPC request: a parse error with a null id.
pub fn parse_error_response(detail: &str) -> (r: JsonRpcResponse)
    ensures
        r.id@ == Jv::Null,
        r.result is None,
        r.error matches Some(e) && e.code == PARSE_ERROR && e.message@ == "parse error: "@ + detail@,
{
    proof { JsonValue::Null.lemma_view(); }
    JsonRpcResponse::error(JsonValue::Null, PARSE_ERROR, text::concat("parse error: ", detail))
}

/// The four method names are distinct.
proof fn lemma_method_names()
    ensures
        "initialize"@ != "ping"@,
        "tools/list"@ != "ping"@,
        "tools/call"@ != "ping"@,
        "initialize"@ != "tools/list"@,
        "initialize"@ != "tools/call"@,
        "tools/list"@ != "tools/call"@,
{
    reveal_strlit("initialize");
    reveal_strlit("ping");
    reveal_strlit("tools/list");
    reveal_strlit("tools/call");
    assert("initialize"@.len() != "ping"@.len());
    assert("tools/list"@.len() != "ping"@.len());
    assert("tools/call"@.len() != "ping"@.len());
    assert("initialize"@[0] != "tools/list"@[0]);
    assert("initialize"@[0] != "tools/call"@[0]);
    assert("tools/list"@[6] != "tools/call"@[6]);
}

/// The answer to a JSON-RPC request: `initialize`, `ping`, `tools/list` and `tools/call`
/// succeed with their result; any other method is not found.
pub fn handle_request<T: HttpTransport>(
    method: &str,
    params: &JsonValue,
    id: JsonValue,
    ctx: &Context,
    t: &mut Exchange<T>,
) -> (r: (JsonRpcResponse, Option<ToolCallRecord>))
    ensures
        r.0.id == id,
        method@ == "initialize"@ ==> (r.0.result matches Some(v) && v@ == handler::initialize_json()),
        method@ == "tools/list"@ ==> (r.0.result matches Some(v) && lists_tools(v@, all_tool_heads())
            && lists_fields(v@, crate::actions::all_tool_fields())
            && lists_properties(v@, crate::actions::all_tool_types(), crate::actions::all_tool_docs(),
                crate::actions::all_tool_enums())),
        method@ == "tools/call"@ ==> (r.0.result matches Some(v)
            && handler::tools_call_answered(params@, *ctx, old(t).log(), final(t).log(), v, r.1)),
        method@ != "tools/call"@ ==> final(t).log() == old(t).log() && r.1 is None,
        method@ == "ping"@ ==> (r.0.result matches Some(v) && v@ == Jv::Obj(Map::empty())),
        method@ != "initialize"@ && method@ != "ping"@ && method@ != "tools/list"@ && method@ != "tools/call"@
            ==> r.0.result is None && (r.0.error matches Some(e) && e.code == METHOD_NOT_FOUND
                && e.message@ == "method not found: "@ + method@),
{
    proof { lemma_method_names(); }
    if text::str_eq(method, "initialize") {
        (JsonRpcResponse::success(id, handler::handle_initialize(params)), None)
    } else if text::str_eq(method, "ping") {
        let empty = JsonObject::new();
        assert(empty@ =~= Map::<Seq<char>, Jv>::empty());
        (JsonRpcResponse::success(id, JsonValue::object(empty)), None)
    } else if text::str_eq(method, "tools/list") {
        (JsonRpcResponse::success(id, handler::handle_tools_list()), None)
    } else if text::str_eq(method, "tools/call") {
        let (result, record) = handler::handle_tools_call(params, ctx, t);
        (JsonRpcResponse::success(id, result), record)
    } else {
        (JsonRpcResponse::error(id, METHOD_NOT_FOUND, text::concat("method not found: ", method)), None)
    }
}

/// The log line for a notification (a request without an id).
pub fn notification_note(method: &str) -> (r: String)
    ensures
        method@ == "notifications/initialized"@ ==> r@ == "[fastermail] client initialized"@,
        method@ != "notifications/initialized"@ ==> r@ == "[fastermail] unknown notification: "@ + method@,
{
    if text::str_eq(method, "notifications/initialized") {
        text::own("[fastermail] client initialized")
    } else {
        text::concat("[fastermail] unknown notification: ", method)
    }
}

} // verus!
