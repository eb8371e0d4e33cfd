//! The chat API: requests, the events streamed back, and how an exchange is recorded.
use vstd::prelude::*;
use crate::json::{field, json_str, view_fields, Json, JsonField, JsonValue};
use crate::model::{Conversation, Message, MessageRole, ToolCallRecord};
use crate::text::{split_words, strings_view, words_inclusive};

verus! {

/// A chat request: the conversation, the user's message, and optionally who sends it
/// and which MCP server to use.
#[derive(Clone, Debug, PartialEq, Eq)]
pub struct ChatRequest {
    pub conversation_id: String,
    pub message: String,
    pub user_id: Option<String>,
    pub mcp_url: Option<String>,
}

/// The user a request is for: the one given, or "default".
pub fn user_id_or_default(user_id: Option<String>) -> (u: String)
    ensures
        user_id matches Some(given) ==> u == given,
        user_id is None ==> u@ == "default"@,
{
    match user_id {
        Some(u) => u,
        None => "default".to_owned(),
    }
}

/// The MCP endpoint of the server: the configured one, or the local default
/// `http://localhost:8787/mcp`.
pub fn mcp_endpoint_or_default(configured: Option<String>) -> (e: String)
    ensures
        configured matches Some(c) ==> e == c,
        configured is None ==> e@ == "http://localhost:8787/mcp"@,
{
    match configured {
        Some(c) => c,
        None => "http://localhost:8787/mcp".to_owned(),
    }
}

/// The MCP endpoint a chat uses: the request's own, or the server's.
pub fn chat_mcp_url(req: &ChatRequest, server_endpoint: &str) -> (u: String)
    ensures
        req.mcp_url matches Some(m) ==> u@ == m@,
        req.mcp_url is None ==> u@ == server_endpoint@,
{
    match &req.mcp_url {
        Some(m) => m.clone(),
        None => server_endpoint.to_owned(),
    }
}

/// An event of the chat stream.
#[derive(Clone, Debug, PartialEq, Eq)]
pub enum ChatEvent {
    Token { text: String },
    ToolCall { name: String, args: Json },
    ToolResult { name: String, result: String },
    Done { rounds: usize },
    Error { message: String },
}

impl ChatEvent {
    /// The SSE event name of an event.
    pub open spec fn name_spec(&self) -> Seq<char> {
        match self {
            ChatEvent::Token { .. } => "token"@,
            ChatEvent::ToolCall { .. } => "tool_call"@,
            ChatEvent::ToolResult { .. } => "tool_result"@,
            ChatEvent::Done { .. } => "done"@,
            ChatEvent::Error { .. } => "error"@,
        }
    }

    /// The SSE event name of an event: its kind in snake case.
    pub fn event_name(&self) -> (n: String)
        ensures
            n@ == self.name_spec(),
    {
        match self {
            ChatEvent::Token { .. } => "token".to_owned(),
            ChatEvent::ToolCall { .. } => "tool_call".to_owned(),
            ChatEvent::ToolResult { .. } => "tool_result".to_owned(),
            ChatEvent::Done { .. } => "done".to_owned(),
            ChatEvent::Error { .. } => "error".to_owned(),
        }
    }
}

/// The body of the health check: `{"ok": true, "service": "ironmind"}`.
pub fn health_body() -> (b: Json)
    ensures
        b@ == JsonValue::Object(
            seq![("ok"@, JsonValue::Bool(true)), ("service"@, JsonValue::Str("ironmind"@))],
        ),
{
    let mut fields: Vec<JsonField> = Vec::new();
    fields.push(field("ok", Json::Bool(true)));
    fields.push(field("service", json_str("ironmind")));
    proof {
        crate::json::lemma_view_fields(fields@);
        assert(view_fields(fields@) =~= seq![
            ("ok"@, JsonValue::Bool(true)),
            ("service"@, JsonValue::Str("ironmind"@)),
        ]);
    }
    Json::Object(fields)
}

/// The answer of a server built without inference: an echo of the message and how to
/// get real answers.
pub fn stub_reply(message: &str) -> (r: String)
    ensures
        r@ == "ironmind stub \u{2014} echo: "@ + message@
            + "\n\nRebuild with --features metal for real Qwen3 inference."@,
{
    let mut r = "ironmind stub \u{2014} echo: ".to_owned();
    r.append(message);
    r.append("\n\nRebuild with --features metal for real Qwen3 inference.");
    r
}

/// The events that stream an answer: one `token` per piece of the text cut after
/// each space, then `done` with the rounds.
pub fn answer_events(text: &str, rounds: usize) -> (evs: Vec<ChatEvent>)
    ensures
        evs@.len() == words_inclusive(text@).len() + 1,
        forall|k: int|
            0 <= k < words_inclusive(text@).len() ==> (#[trigger] evs@[k] matches ChatEvent::Token {
                text: t,
            } && t@ == words_inclusive(text@)[k]),
        evs@.last() == (ChatEvent::Done { rounds }),
{
    let words = split_words(text);
    let ghost w = strings_view(words@);
    let mut evs: Vec<ChatEvent> = Vec::new();
    let mut i: usize = 0;
    while i < words.len()
        invariant
            0 <= i <= words@.len(),
            w == strings_view(words@),
            evs@.len() == i,
            forall|k: int|
                0 <= k < i ==> (#[trigger] evs@[k] matches ChatEvent::Token { text: t } && t@
                    == w[k]),
        decreases words@.len() - i,
    {
        evs.push(ChatEvent::Token { text: words[i].clone() });
        i = i + 1;
    }
    evs.push(ChatEvent::Done { rounds });
    evs
}

/// The conversation a chat continues: the stored one, or a new one for the request's
/// user (or "default") on the given MCP endpoint.
pub fn resolve_conversation(stored: Option<Conversation>, req: &ChatRequest, mcp_url: &str) -> (c:
    Conversation)
    ensures
        stored matches Some(s) ==> c == s,
        stored is None ==> {
            &&& c.id@ == req.conversation_id@
            &&& (req.user_id matches Some(u) ==> c.user_id@ == u@)
            &&& (req.user_id is None ==> c.user_id@ == "default"@)
            &&& c.mcp_url@ == mcp_url@
            &&& c.title@ == "New conversation"@
            &&& c.messages@.len() == 0
        },
{
    match stored {
        Some(s) => s,
        None => {
            let user = user_id_or_default(req.user_id.clone());
            Conversation::new(req.conversation_id.clone(), user, mcp_url.to_owned())
        },
    }
}

/// Adds an exchange to a conversation: the user's message, then the assistant's reply
/// with the tool calls made for it.
pub fn record_exchange(
    conv: &mut Conversation,
    user_text: String,
    reply: String,
    tool_log: Vec<ToolCallRecord>,
)
    ensures
        *final(conv) == (Conversation { messages: final(conv).messages, ..*old(conv) }),
        final(conv).messages@.len() == old(conv).messages@.len() + 2,
        final(conv).messages@.subrange(0, old(conv).messages@.len() as int) == old(
            conv,
        ).messages@,
        ({
            let u = final(conv).messages@[old(conv).messages@.len() as int];
            u.role == MessageRole::User && u.content == user_text && u.tool_calls@.len() == 0
                && crate::model::is_uuid_v4_text(u.id@)
        }),
        ({
            let a = final(conv).messages@[old(conv).messages@.len() as int + 1];
            a.role == MessageRole::Assistant && a.content == reply && a.tool_calls == tool_log
                && crate::model::is_uuid_v4_text(a.id@)
        }),
{
    let u = Message::new(MessageRole::User, user_text, Vec::new());
    conv.messages.push(u);
    let a = Message::new(MessageRole::Assistant, reply, tool_log);
    conv.messages.push(a);
}

} // verus!
