//! The MCP protocol over JSON-RPC: the requests a client sends and how it reads the
//! answers.
use vstd::prelude::*;
use crate::agent::McpTool;
use crate::json::{field, json_str, view_items, Json, JsonField, JsonValue};

verus! {

/// Why an MCP exchange failed.
#[derive(Clone, Debug, PartialEq, Eq)]
pub enum McpError {
    /// The answer to `tools/list` has no `tools` array.
    MissingToolsArray,
    /// The server answered with a JSON-RPC error.
    Server(Json),
}

impl McpError {
    /// The text reported for a missing tools array.
    pub fn missing_tools_message() -> (m: String)
        ensures
            m@ == "tools/list: expected 'tools' array in response"@,
    {
        "tools/list: expected 'tools' array in response".to_owned()
    }
}

/// A JSON-RPC call: its method and parameters.
#[derive(Clone, Debug, PartialEq, Eq)]
pub struct RpcCall {
    pub method: String,
    pub params: Json,
}

/// The `tools/list` call: no parameters.
pub fn list_tools_call() -> (c: RpcCall)
    ensures
        c.method@ == "tools/list"@,
        c.params@ == JsonValue::Object(Seq::empty()),
{
    let c = RpcCall { method: "tools/list".to_owned(), params: Json::Object(Vec::new()) };
    proof {
        assert(crate::json::view_fields(Seq::<JsonField>::empty()) =~= Seq::empty());
    }
    c
}

/// The `tools/call` call of tool `name` with arguments `args`.
pub fn call_tool_call(name: &str, args: Json) -> (c: RpcCall)
    ensures
        c.method@ == "tools/call"@,
        c.params@ == JsonValue::Object(
            seq![("arguments"@, args@), ("name"@, JsonValue::Str(name@))],
        ),
{
    let ghost a = args@;
    let mut fields: Vec<JsonField> = Vec::new();
    fields.push(field("arguments", args));
    fields.push(field("name", json_str(name)));
    proof {
        crate::json::lemma_view_fields(fields@);
        assert(crate::json::view_fields(fields@) =~= seq![
            ("arguments"@, a),
            ("name"@, JsonValue::Str(name@)),
        ]);
    }
    RpcCall { method: "tools/call".to_owned(), params: Json::Object(fields) }
}

/// The JSON-RPC request body for a call.
pub open spec fn request_body_spec(method: Seq<char>, params: JsonValue) -> JsonValue {
    JsonValue::Object(
        seq![
            ("id"@, JsonValue::Number("1"@)),
            ("jsonrpc"@, JsonValue::Str("2.0"@)),
            ("method"@, JsonValue::Str(method)),
            ("params"@, params),
        ],
    )
}

/// The JSON-RPC 2.0 request body for a call, with id 1.
pub fn request_body(call: RpcCall) -> (b: Json)
    ensures
        b@ == request_body_spec(call.method@, call.params@),
{
    let RpcCall { method, params } = call;
    let ghost p = params@;
    let mut fields: Vec<JsonField> = Vec::new();
    fields.push(field("id", Json::Number("1".to_owned())));
    fields.push(field("jsonrpc", json_str("2.0")));
    fields.push(JsonField { key: "method".to_owned(), value: Json::Str(method) });
    fields.push(field("params", params));
    proof {
        crate::json::lemma_view_fields(fields@);
        assert(crate::json::view_fields(fields@) =~= request_body_spec(method@, p)->Object_0);
    }
    Json::Object(fields)
}

/// What a JSON-RPC response gives: its `error` member when it has one, otherwise its
/// `result` member (`null` when absent).
pub open spec fn response_result_spec(resp: JsonValue) -> Result<JsonValue, JsonValue> {
    if resp.has_member("error"@) {
        Err(resp.member("error"@))
    } else {
        Ok(resp.member("result"@))
    }
}

/// The result of a JSON-RPC response, or the server's error.
pub fn response_result(resp: &Json) -> (r: Result<Json, McpError>)
    ensures
        r matches Ok(v) ==> response_result_spec(resp@) == Ok::<JsonValue, JsonValue>(v@),
        r matches Err(e) ==> (e matches McpError::Server(err) && response_result_spec(resp@)
            == Err::<JsonValue, JsonValue>(err@)),
{
    match resp.get("error") {
        Some(err) => Err(McpError::Server(err.duplicate())),
        None => match resp.get("result") {
            Some(v) => Ok(v.duplicate()),
            None => Ok(Json::Null),
        },
    }
}

/// A string member's text, or the empty text.
pub open spec fn str_or_empty(v: JsonValue) -> Seq<char> {
    match v.as_str() {
        Some(s) => s,
        None => Seq::empty(),
    }
}

/// The tool an entry of a `tools/list` answer describes: its name and description
/// (empty when not strings) and its input schema (`null` when absent).
pub open spec fn tool_from_entry(tool: McpTool, entry: JsonValue) -> bool {
    &&& tool.name@ == str_or_empty(entry.member("name"@))
    &&& tool.description@ == str_or_empty(entry.member("description"@))
    &&& tool.parameters@ == entry.member("inputSchema"@)
}

fn text_member(v: &Json, key: &str) -> (s: String)
    ensures
        s@ == str_or_empty(v@.member(key@)),
{
    match v.get(key) {
        Some(m) => match m.as_str() {
            Some(t) => t.clone(),
            None => String::new(),
        },
        None => String::new(),
    }
}

/// The tools of a `tools/list` result: one per entry of its `tools` array, in order;
/// `MissingToolsArray` when there is no such array.
pub fn tools_from_list(result: &Json) -> (r: Result<Vec<McpTool>, McpError>)
    ensures
        result@.member("tools"@).as_array() is None ==> r == Err::<Vec<McpTool>, McpError>(
            McpError::MissingToolsArray,
        ),
        result@.member("tools"@).as_array() matches Some(entries) ==> (r matches Ok(tools)
            && tools@.len() == entries.len() && forall|i: int|
            0 <= i < entries.len() ==> tool_from_entry(#[trigger] tools@[i], entries[i])),
{
    let items = match result.get("tools") {
        Some(t) => match t.as_array() {
            Some(items) => items,
            None => {
                return Err(McpError::MissingToolsArray);
            },
        },
        None => {
            return Err(McpError::MissingToolsArray);
        },
    };
    proof {
        crate::json::lemma_view_items(items@);
    }
    let ghost entries = view_items(items@);
    let mut tools: Vec<McpTool> = Vec::new();
    let mut i: usize = 0;
    while i < items.len()
        invariant
            0 <= i <= items@.len(),
            entries == view_items(items@),
            entries.len() == items@.len(),
            forall|j: int| 0 <= j < items@.len() ==> #[trigger] entries[j] == items@[j]@,
            tools@.len() == i,
            forall|j: int| 0 <= j < i ==> tool_from_entry(#[trigger] tools@[j], entries[j]),
        decreases items@.len() - i,
    {
        let t = &items[i];
        let name = text_member(t, "name");
        let description = text_member(t, "description");
        let parameters = match t.get("inputSchema") {
            Some(p) => p.duplicate(),
            None => Json::Null,
        };
        tools.push(McpTool { name, description, parameters });
        proof {
            assert(entries[i as int] == items@[i as int]@);
        }
        i = i + 1;
    }
    Ok(tools)
}

/// The text of a `tools/call` result: the `text` of its first content block.
pub open spec fn tool_text_spec(result: JsonValue) -> Seq<char> {
    match result.member("content"@).as_array() {
        Some(blocks) => if blocks.len() > 0 {
            match blocks[0].member("text"@).as_str() {
                Some(t) => t,
                None => "ok"@,
            }
        } else {
            "ok"@
        },
        None => "ok"@,
    }
}

/// The text of a `tools/call` result: the `text` of the first block of its `content`
/// array, or "ok" when there is none.
pub fn tool_text(result: &Json) -> (t: String)
    ensures
        t@ == tool_text_spec(result@),
{
    match result.get("content") {
        Some(c) => match c.as_array() {
            Some(blocks) => {
                proof {
                    crate::json::lemma_view_items(blocks@);
                }
                if blocks.len() > 0 {
                    match blocks[0].get("text") {
                        Some(x) => match x.as_str() {
                            Some(s) => s.clone(),
                            None => "ok".to_owned(),
                        },
                        None => "ok".to_owned(),
                    }
                } else {
                    "ok".to_owned()
                }
            },
            None => "ok".to_owned(),
        },
        None => "ok".to_owned(),
    }
}


/// Law: a response that carries an `error` member is a failure, whatever else it
/// holds; one without is a success with its `result` member.
pub proof fn lemma_error_response_fails(resp: JsonValue)
    ensures
        resp.has_member("error"@) ==> response_result_spec(resp) is Err,
        !resp.has_member("error"@) ==> response_result_spec(resp) == Ok::<JsonValue, JsonValue>(
            resp.member("result"@),
        ),
{
}


/// Law: the text of a tool result is the `text` of its first content block, whatever
/// the blocks after it hold; two results whose first blocks agree give the same text.
/// Without a content array, without blocks, or without a string `text` in the first
/// block, the text is "ok".
pub proof fn lemma_tool_text_first_block(result: JsonValue, other: JsonValue, t: Seq<char>)
    ensures
        (result.member("content"@).as_array() matches Some(blocks) && blocks.len() > 0
            && blocks[0].member("text"@).as_str() == Some(t)) ==> tool_text_spec(result) == t,
        (result.member("content"@).as_array() matches Some(b1) && other.member(
            "content"@,
        ).as_array() matches Some(b2) && b1.len() > 0 && b2.len() > 0 && b1[0] == b2[0])
            ==> tool_text_spec(result) == tool_text_spec(other),
        result.member("content"@).as_array() is None ==> tool_text_spec(result) == "ok"@,
        (result.member("content"@).as_array() matches Some(blocks) && (blocks.len() == 0
            || blocks[0].member("text"@).as_str() is None)) ==> tool_text_spec(result) == "ok"@,
{
}

} // verus!
