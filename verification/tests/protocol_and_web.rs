use ironmind::json::{Json, JsonField};
use ironmind::mcp::{
    call_tool_call, list_tools_call, request_body, response_result, tool_text, tools_from_list,
    McpError,
};
use ironmind::model::{Conversation, MessageRole};
use ironmind::r2::{listed_keys, object_text, r2_endpoint, R2Config};
use ironmind::web::{
    answer_events, chat_mcp_url, health_body, mcp_endpoint_or_default, record_exchange,
    resolve_conversation, stub_reply, user_id_or_default, ChatEvent, ChatRequest,
};

fn obj(fields: Vec<(&str, Json)>) -> Json {
    Json::Object(
        fields
            .into_iter()
            .map(|(k, v)| JsonField { key: k.to_string(), value: v })
            .collect(),
    )
}

fn s(x: &str) -> Json {
    Json::Str(x.into())
}

#[test]
fn rpc_calls_and_body() {
    let c = list_tools_call();
    assert_eq!(c.method, "tools/list");
    assert_eq!(c.params, obj(vec![]));
    let c = call_tool_call("box", obj(vec![("w", Json::Number("1".into()))]));
    assert_eq!(c.method, "tools/call");
    assert_eq!(
        c.params,
        obj(vec![("arguments", obj(vec![("w", Json::Number("1".into()))])), ("name", s("box"))])
    );
    let b = request_body(c.clone());
    assert_eq!(
        b,
        obj(vec![
            ("id", Json::Number("1".into())),
            ("jsonrpc", s("2.0")),
            ("method", s("tools/call")),
            ("params", c.params),
        ])
    );
}

#[test]
fn rpc_response_reading() {
    let ok = obj(vec![("jsonrpc", s("2.0")), ("result", obj(vec![("x", Json::Bool(true))]))]);
    assert_eq!(response_result(&ok), Ok(obj(vec![("x", Json::Bool(true))])));
    let err = obj(vec![("error", obj(vec![("code", Json::Number("-1".into()))])), ("result", s("r"))]);
    assert_eq!(
        response_result(&err),
        Err(McpError::Server(obj(vec![("code", Json::Number("-1".into()))])))
    );
    let null_err = obj(vec![("error", Json::Null)]);
    assert_eq!(response_result(&null_err), Err(McpError::Server(Json::Null)));
    assert_eq!(response_result(&obj(vec![])), Ok(Json::Null));
    assert_eq!(response_result(&Json::Null), Ok(Json::Null));
}

#[test]
fn tool_list_reading() {
    let result = obj(vec![(
        "tools",
        Json::Array(vec![
            obj(vec![
                ("name", s("box")),
                ("description", s("Make a box")),
                ("inputSchema", obj(vec![("type", s("object"))])),
            ]),
            obj(vec![("name", Json::Number("3".into()))]),
        ]),
    )]);
    let tools = tools_from_list(&result).unwrap();
    assert_eq!(tools.len(), 2);
    assert_eq!(tools[0].name, "box");
    assert_eq!(tools[0].description, "Make a box");
    assert_eq!(tools[0].parameters, obj(vec![("type", s("object"))]));
    assert_eq!(tools[1].name, "");
    assert_eq!(tools[1].description, "");
    assert_eq!(tools[1].parameters, Json::Null);
    assert_eq!(tools_from_list(&obj(vec![])), Err(McpError::MissingToolsArray));
    assert_eq!(tools_from_list(&obj(vec![("tools", s("no"))])), Err(McpError::MissingToolsArray));
    assert_eq!(McpError::missing_tools_message(), "tools/list: expected 'tools' array in response");
}

#[test]
fn tool_text_reading() {
    let r = obj(vec![("content", Json::Array(vec![obj(vec![("type", s("text")), ("text", s("42"))])]))]);
    assert_eq!(tool_text(&r), "42");
    assert_eq!(tool_text(&obj(vec![("content", Json::Array(vec![]))])), "ok");
    assert_eq!(tool_text(&obj(vec![("content", Json::Array(vec![obj(vec![])]))])), "ok");
    assert_eq!(tool_text(&Json::Null), "ok");
}

#[test]
fn r2_settings() {
    let c = R2Config::from_values(Some("acc".into()), Some("key".into()), Some("sec".into()), None)
        .unwrap();
    assert_eq!(c.bucket, "ironmind");
    assert_eq!(c.account_id, "acc");
    let c = R2Config::from_values(Some("a".into()), Some("k".into()), Some("s".into()), Some("b".into()))
        .unwrap();
    assert_eq!(c.bucket, "b");
    let e = R2Config::from_values(None, None, None, None).unwrap_err();
    assert_eq!(e.message(), "IRONMIND_R2_ACCOUNT_ID not set");
    let e = R2Config::from_values(Some("a".into()), None, Some("s".into()), None).unwrap_err();
    assert_eq!(e.message(), "IRONMIND_R2_ACCESS_KEY_ID not set");
    let e = R2Config::from_values(Some("a".into()), Some("k".into()), None, None).unwrap_err();
    assert_eq!(e.variable, "IRONMIND_R2_SECRET_ACCESS_KEY");
    assert_eq!(r2_endpoint("abc"), "https://abc.r2.cloudflarestorage.com");
}

#[test]
fn object_text_decoding() {
    assert_eq!(object_text(None).unwrap(), None);
    assert_eq!(object_text(Some("héllo".as_bytes().to_vec())).unwrap(), Some("héllo".to_string()));
    assert!(object_text(Some(vec![0xff, 0xfe])).is_err());
}

#[test]
fn listing_keys() {
    assert_eq!(
        listed_keys(vec![Some("a".into()), None, Some("b".into())]),
        vec!["a".to_string(), "b".to_string()]
    );
}

#[test]
fn request_defaults() {
    assert_eq!(user_id_or_default(None), "default");
    assert_eq!(user_id_or_default(Some("u".into())), "u");
    assert_eq!(mcp_endpoint_or_default(None), "http://localhost:8787/mcp");
    let req = ChatRequest {
        conversation_id: "c".into(),
        message: "m".into(),
        user_id: None,
        mcp_url: Some("http://other".into()),
    };
    assert_eq!(chat_mcp_url(&req, "http://server"), "http://other");
    let req2 = ChatRequest { mcp_url: None, ..req };
    assert_eq!(chat_mcp_url(&req2, "http://server"), "http://server");
}

#[test]
fn event_names() {
    assert_eq!(ChatEvent::Token { text: "a".into() }.event_name(), "token");
    assert_eq!(ChatEvent::ToolCall { name: "n".into(), args: Json::Null }.event_name(), "tool_call");
    assert_eq!(ChatEvent::ToolResult { name: "n".into(), result: "r".into() }.event_name(), "tool_result");
    assert_eq!(ChatEvent::Done { rounds: 1 }.event_name(), "done");
    assert_eq!(ChatEvent::Error { message: "e".into() }.event_name(), "error");
}

#[test]
fn health_check_body() {
    assert_eq!(health_body(), obj(vec![("ok", Json::Bool(true)), ("service", s("ironmind"))]));
}

#[test]
fn stub_answer_and_events() {
    let reply = stub_reply("hi there");
    assert_eq!(
        reply,
        "ironmind stub — echo: hi there\n\nRebuild with --features metal for real Qwen3 inference."
    );
    let evs = answer_events("a b", 4);
    assert_eq!(
        evs,
        vec![
            ChatEvent::Token { text: "a ".into() },
            ChatEvent::Token { text: "b".into() },
            ChatEvent::Done { rounds: 4 },
        ]
    );
    assert_eq!(answer_events("", 0), vec![ChatEvent::Done { rounds: 0 }]);
}

#[test]
fn conversation_resolution_and_recording() {
    let req = ChatRequest {
        conversation_id: "c9".into(),
        message: "m".into(),
        user_id: None,
        mcp_url: None,
    };
    let c = resolve_conversation(None, &req, "stub");
    assert_eq!(c.id, "c9");
    assert_eq!(c.user_id, "default");
    assert_eq!(c.mcp_url, "stub");
    let stored = Conversation::new("old".into(), "u".into(), "x".into());
    assert_eq!(resolve_conversation(Some(stored.clone()), &req, "stub"), stored);
    let mut c = c;
    record_exchange(&mut c, "question".into(), "answer".into(), vec![]);
    assert_eq!(c.messages.len(), 2);
    assert_eq!(c.messages[0].role, MessageRole::User);
    assert_eq!(c.messages[0].content, "question");
    assert_eq!(c.messages[1].role, MessageRole::Assistant);
    assert_eq!(c.messages[1].content, "answer");
}
