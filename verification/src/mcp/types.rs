//! JSON-RPC 2.0 and MCP message types, with their JSON forms.

use vstd::prelude::*;

use crate::json::{read_str, str_member, JsonObject, JsonValue, Jv};
use crate::text;

verus! {

// --- JSON-RPC 2.0 Types ---

/// A JSON-RPC request (or, without an id, a notification).
#[derive(Debug)]
pub struct JsonRpcRequest {
    pub jsonrpc: String,
    pub id: Option<JsonValue>,
    pub method: String,
    pub params: JsonValue,
}

/// Whether a document is a well-formed JSON-RPC request: an object with string members
/// `jsonrpc` and `method`.
pub open spec fn request_ok(j: Jv) -> bool {
    j matches Jv::Obj(m) && m.contains_key("jsonrpc"@) && m["jsonrpc"@] is Str
        && m.contains_key("method"@) && m["method"@] is Str
}

/// The id of a request document: absent and null both mean a notification.
pub open spec fn request_id(m: Map<Seq<char>, Jv>) -> Option<Jv> {
    if m.contains_key("id"@) && m["id"@] != Jv::Null {
        Some(m["id"@])
    } else {
        None
    }
}

impl JsonRpcRequest {
    /// Read a request document; `None` when it is not a well-formed request.
    pub fn from_json(j: &JsonValue) -> (r: Option<JsonRpcRequest>)
        ensures
            match r {
                Some(req) => request_ok(j@) && req.jsonrpc@ == j@->Obj_0["jsonrpc"@]->Str_0
                    && req.method@ == j@->Obj_0["method"@]->Str_0
                    && (match req.id {
                        Some(v) => request_id(j@->Obj_0) == Some(v@),
                        None => request_id(j@->Obj_0) is None,
                    })
                    && req.params@ == (if j@->Obj_0.contains_key("params"@) { j@->Obj_0["params"@] } else { Jv::Null }),
                None => !request_ok(j@),
            },
    {
        proof { j.lemma_view(); }
        let o = j.as_object()?;
        let jsonrpc = text::own(o.get("jsonrpc")?.as_str()?);
        let method = text::own(o.get("method")?.as_str()?);
        let id = match o.get("id") {
            None => None,
            Some(v) => {
                proof { v.lemma_view(); }
                if let JsonValue::Null = v {
                    None
                } else {
                    Some(v.deep_clone())
                }
            },
        };
        let params = match o.get("params") {
            None => JsonValue::Null,
            Some(p) => p.deep_clone(),
        };
        proof { JsonValue::Null.lemma_view(); }
        Some(JsonRpcRequest { jsonrpc, id, method, params })
    }
}

/// A JSON-RPC error object.
#[derive(Debug)]
pub struct JsonRpcError {
    pub code: i32,
    pub message: String,
}

/// A JSON-RPC response: a result or an error, never both.
#[derive(Debug)]
pub struct JsonRpcResponse {
    pub jsonrpc: String,
    pub id: JsonValue,
    pub result: Option<JsonValue>,
    pub error: Option<JsonRpcError>,
}

/// The JSON form of an integer.
pub open spec fn int_json(n: int) -> Jv {
    if n >= 0 { Jv::UInt(n as u64) } else { Jv::Int(n as i64) }
}

/// The JSON form of a response: `jsonrpc`, `id`, and `result` or `error` when present.
pub open spec fn response_json(r: JsonRpcResponse) -> Jv {
    let base = map!["jsonrpc"@ => Jv::Str(r.jsonrpc@), "id"@ => r.id@];
    let with_result = match r.result {
        Some(v) => base.insert("result"@, v@),
        None => base,
    };
    Jv::Obj(match r.error {
        Some(e) => with_result.insert("error"@, Jv::Obj(map!["code"@ => int_json(e.code as int), "message"@ => Jv::Str(e.message@)])),
        None => with_result,
    })
}

/// A JSON integer.
pub fn int_value(n: i64) -> (r: JsonValue)
    ensures
        r@ == int_json(n as int),
{
    let r = if n >= 0 { JsonValue::UInt(n as u64) } else { JsonValue::Int(n) };
    proof { r.lemma_view(); }
    r
}

impl JsonRpcResponse {
    /// A successful response carrying `result`.
    pub fn success(id: JsonValue, result: JsonValue) -> (r: JsonRpcResponse)
        ensures
            r.jsonrpc@ == "2.0"@,
            r.id == id,
            r.result == Some(result),
            r.error is None,
    {
        JsonRpcResponse { jsonrpc: text::own("2.0"), id, result: Some(result), error: None }
    }

    /// An error response.
    pub fn error(id: JsonValue, code: i32, message: String) -> (r: JsonRpcResponse)
        ensures
            r.jsonrpc@ == "2.0"@,
            r.id == id,
            r.result is None,
            r.error matches Some(e) && e.code == code && e.message == message,
    {
        JsonRpcResponse { jsonrpc: text::own("2.0"), id, result: None, error: Some(JsonRpcError { code, message }) }
    }

    /// The JSON document sent for this response.
    pub fn to_json(&self) -> (r: JsonValue)
        ensures
            r@ == response_json(*self),
    {
        let mut o = JsonObject::new()
            .with("jsonrpc", JsonValue::string(self.jsonrpc.as_str()))
            .with("id", self.id.deep_clone());
        if let Some(v) = &self.result {
            o.insert(text::own("result"), v.deep_clone());
        }
        if let Some(e) = &self.error {
            let eo = JsonObject::new()
                .with("code", int_value(e.code as i64))
                .with("message", JsonValue::string(e.message.as_str()));
            o.insert(text::own("error"), JsonValue::object(eo));
        }
        let r = JsonValue::object(o);
        assert(r@ =~= response_json(*self));
        r
    }
}

// --- Error Codes ---

pub const PARSE_ERROR: i32 = -32700;
pub const INVALID_REQUEST: i32 = -32600;
pub const METHOD_NOT_FOUND: i32 = -32601;
pub const INVALID_PARAMS: i32 = -32602;
pub const INTERNAL_ERROR: i32 = -32603;

// --- MCP Types ---

/// What a client reports about itself.
#[derive(Debug)]
pub struct ClientInfo {
    pub name: String,
    pub version: String,
}

/// The parameters of `initialize`.
#[derive(Debug)]
pub struct InitializeParams {
    pub protocol_version: String,
    pub capabilities: JsonValue,
    pub client_info: ClientInfo,
}

/// The server's tool capability.
#[derive(Debug)]
pub struct ToolsCapability {
    pub list_changed: bool,
}

/// The server's capabilities.
#[derive(Debug)]
pub struct ServerCapabilities {
    pub tools: ToolsCapability,
}

/// What the server reports about itself.
#[derive(Debug)]
pub struct ServerInfo {
    pub name: String,
    pub version: String,
}

/// The result of `initialize`.
#[derive(Debug)]
pub struct InitializeResult {
    pub protocol_version: String,
    pub capabilities: ServerCapabilities,
    pub server_info: ServerInfo,
}

/// The JSON form of an `initialize` result.
pub open spec fn initialize_json(r: InitializeResult) -> Jv {
    Jv::Obj(map![
        "protocolVersion"@ => Jv::Str(r.protocol_version@),
        "capabilities"@ => Jv::Obj(map!["tools"@ => Jv::Obj(map!["listChanged"@ => Jv::Bool(r.capabilities.tools.list_changed)])]),
        "serverInfo"@ => Jv::Obj(map!["name"@ => Jv::Str(r.server_info.name@), "version"@ => Jv::Str(r.server_info.version@)])
    ])
}

impl InitializeResult {
    pub fn to_json(&self) -> (r: JsonValue)
        ensures
            r@ == initialize_json(*self),
    {
        let tools = JsonObject::new().with("listChanged", JsonValue::Bool(self.capabilities.tools.list_changed));
        let caps = JsonObject::new().with("tools", JsonValue::object(tools));
        let info = JsonObject::new()
            .with("name", JsonValue::string(self.server_info.name.as_str()))
            .with("version", JsonValue::string(self.server_info.version.as_str()));
        let o = JsonObject::new()
            .with("protocolVersion", JsonValue::string(self.protocol_version.as_str()))
            .with("capabilities", JsonValue::object(caps))
            .with("serverInfo", JsonValue::object(info));
        proof { JsonValue::Bool(self.capabilities.tools.list_changed).lemma_view(); }
        let r = JsonValue::object(o);
        assert(r@ =~= initialize_json(*self));
        r
    }
}

/// A tool the server offers.
#[derive(Debug)]
pub struct Tool {
    pub name: String,
    pub description: String,
    pub input_schema: JsonValue,
}

/// The JSON form of a tool.
pub open spec fn tool_json(t: Tool) -> Jv {
    Jv::Obj(map!["name"@ => Jv::Str(t.name@), "description"@ => Jv::Str(t.description@), "inputSchema"@ => t.input_schema@])
}

impl Tool {
    /// A tool named `name`, described by `description`, taking arguments of `input_schema`.
    pub fn new(name: &str, description: &str, input_schema: JsonValue) -> (r: Tool)
        ensures
            r.name@ == name@,
            r.description@ == description@,
            r.input_schema == input_schema,
    {
        Tool { name: text::own(name), description: text::own(description), input_schema }
    }

    pub fn to_json(&self) -> (r: JsonValue)
        ensures
            r@ == tool_json(*self),
    {
        let o = JsonObject::new()
            .with("name", JsonValue::string(self.name.as_str()))
            .with("description", JsonValue::string(self.description.as_str()))
            .with("inputSchema", self.input_schema.deep_clone());
        let r = JsonValue::object(o);
        assert(r@ =~= tool_json(*self));
        r
    }
}

/// The result of `tools/list`.
#[derive(Debug)]
pub struct ToolsListResult {
    pub tools: Vec<Tool>,
}

impl ToolsListResult {
    pub fn to_json(&self) -> (r: JsonValue)
        ensures
            r@ == Jv::Obj(map!["tools"@ => Jv::Arr(self.tools@.map_values(|t: Tool| tool_json(t)))]),
    {
        let mut out: Vec<JsonValue> = Vec::new();
        let mut i: usize = 0;
        while i < self.tools.len()
            invariant
                i <= self.tools.len(),
                out@.len() == i,
                forall|j: int| 0 <= j < i ==> (#[trigger] out@[j])@ == tool_json(self.tools@[j]),
            decreases self.tools.len() - i,
        {
            out.push(self.tools[i].to_json());
            i = i + 1;
        }
        let arr = JsonValue::array(out);
        assert(crate::json::views(out@) =~= self.tools@.map_values(|t: Tool| tool_json(t)));
        let r = JsonValue::object(JsonObject::new().with("tools", arr));
        r
    }
}

/// The parameters of `tools/call`.
#[derive(Debug)]
pub struct ToolCallParams {
    pub name: String,
    pub arguments: JsonValue,
}

impl ToolCallParams {
    /// The name and arguments a `tools/call` parameter document holds, if well formed.
    pub open spec fn read_spec(j: Jv) -> Option<(Seq<char>, Jv)> {
        match j {
            Jv::Obj(m) => match str_member(m, "name"@) {
                Some(n) => Some((n, if m.contains_key("arguments"@) { m["arguments"@] } else { Jv::Null })),
                None => None,
            },
            _ => None,
        }
    }

    /// Read `tools/call` parameters (members default when absent); `None` when they are
    /// not an object or `name` is not a string.
    pub fn from_json(j: &JsonValue) -> (r: Option<ToolCallParams>)
        ensures
            match r {
                Some(p) => j@ matches Jv::Obj(m) && str_member(m, "name"@) == Some(p.name@)
                    && p.arguments@ == (if m.contains_key("arguments"@) { m["arguments"@] } else { Jv::Null }),
                None => !(j@ matches Jv::Obj(m) && str_member(m, "name"@) is Some),
            },
    {
        proof { j.lemma_view(); JsonValue::Null.lemma_view(); }
        let o = j.as_object()?;
        let name = read_str(o, "name")?;
        let arguments = match o.get("arguments") {
            None => JsonValue::Null,
            Some(a) => a.deep_clone(),
        };
        Some(ToolCallParams { name, arguments })
    }
}

/// One piece of a tool's reply.
#[derive(Debug)]
pub struct ToolContent {
    pub content_type: String,
    pub text: String,
}

/// A tool's reply: its content, and whether it reports a failure.
#[derive(Debug)]
pub struct ToolCallResult {
    pub content: Vec<ToolContent>,
    pub is_error: bool,
}

/// The JSON form of a tool reply.
pub open spec fn tool_result_json(r: ToolCallResult) -> Jv {
    Jv::Obj(map![
        "content"@ => Jv::Arr(r.content@.map_values(|c: ToolContent| Jv::Obj(map!["type"@ => Jv::Str(c.content_type@), "text"@ => Jv::Str(c.text@)]))),
        "isError"@ => Jv::Bool(r.is_error)
    ])
}

/// The JSON form of a reply holding the single text item `t`.
pub open spec fn reply_json(t: Seq<char>, is_error: bool) -> Jv {
    Jv::Obj(map![
        "content"@ => Jv::Arr(seq![Jv::Obj(map!["type"@ => Jv::Str("text"@), "text"@ => Jv::Str(t)])]),
        "isError"@ => Jv::Bool(is_error)
    ])
}

impl ToolCallResult {
    /// A successful reply holding one text item.
    pub fn text(text: String) -> (r: ToolCallResult)
        ensures
            r.content@.len() == 1,
            r.content@[0].content_type@ == "text"@,
            r.content@[0].text == text,
            !r.is_error,
            tool_result_json(r) == reply_json(text@, false),
    {
        let r = ToolCallResult { content: vec![ToolContent { content_type: text::own("text"), text }], is_error: false };
        assert(r.content@.map_values(|c: ToolContent| Jv::Obj(map!["type"@ => Jv::Str(c.content_type@), "text"@ => Jv::Str(c.text@)])) =~= seq![Jv::Obj(map!["type"@ => Jv::Str("text"@), "text"@ => Jv::Str(r.content@[0].text@)])]);
        r
    }

    /// A failure reply holding one text item.
    pub fn error(text: String) -> (r: ToolCallResult)
        ensures
            r.content@.len() == 1,
            r.content@[0].content_type@ == "text"@,
            r.content@[0].text == text,
            r.is_error,
            tool_result_json(r) == reply_json(text@, true),
    {
        let r = ToolCallResult { content: vec![ToolContent { content_type: text::own("text"), text }], is_error: true };
        assert(r.content@.map_values(|c: ToolContent| Jv::Obj(map!["type"@ => Jv::Str(c.content_type@), "text"@ => Jv::Str(c.text@)])) =~= seq![Jv::Obj(map!["type"@ => Jv::Str("text"@), "text"@ => Jv::Str(r.content@[0].text@)])]);
        r
    }

    pub fn to_json(&self) -> (r: JsonValue)
        ensures
            r@ == tool_result_json(*self),
    {
        let mut out: Vec<JsonValue> = Vec::new();
        let mut i: usize = 0;
        while i < self.content.len()
            invariant
                i <= self.content.len(),
                out@.len() == i,
                forall|j: int| 0 <= j < i ==> (#[trigger] out@[j])@ == Jv::Obj(map!["type"@ => Jv::Str(self.content@[j].content_type@), "text"@ => Jv::Str(self.content@[j].text@)]),
            decreases self.content.len() - i,
        {
            let c = &self.content[i];
            let o = JsonObject::new()
                .with("type", JsonValue::string(c.content_type.as_str()))
                .with("text", JsonValue::string(c.text.as_str()));
            let v = JsonValue::object(o);
            assert(v@ =~= Jv::Obj(map!["type"@ => Jv::Str(c.content_type@), "text"@ => Jv::Str(c.text@)]));
            out.push(v);
            i = i + 1;
        }
        let arr = JsonValue::array(out);
        assert(crate::json::views(out@) =~= self.content@.map_values(|c: ToolContent| Jv::Obj(map!["type"@ => Jv::Str(c.content_type@), "text"@ => Jv::Str(c.text@)])));
        proof { JsonValue::Bool(self.is_error).lemma_view(); }
        let r = JsonValue::object(JsonObject::new().with("content", arr).with("isError", JsonValue::Bool(self.is_error)));
        assert(r@ =~= tool_result_json(*self));
        r
    }
}

} // verus!
