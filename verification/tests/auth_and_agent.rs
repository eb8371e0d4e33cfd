use ironmind::agent::{AgentAction, AgentResult, AgentRun, ChatTurn, ExecutedCall, ModelReply, Phase, ToolCallRequest};
use ironmind::auth::{
    authorize, bearer_token, generate_token, generate_token_at, token_user_id, AuthError,
    TokenError, UserLookup,
};
use ironmind::config::{default_max_rounds, default_max_tokens, default_true, AgentConfig, ModelConfig};
use ironmind::model::UserProfile;
use ironmind::time::Timestamp;

fn hex(s: &str) -> String {
    blake3::hash(s.as_bytes()).to_hex().to_string()
}

fn profile(id: &str, token_hash: String) -> UserProfile {
    UserProfile { id: id.into(), name: "N".into(), token_hash, created_at: Timestamp { secs: 0, nanos: 0 } }
}

#[test]
fn bearer_header_parsing() {
    assert_eq!(bearer_token(None), Err(AuthError::Missing));
    assert_eq!(bearer_token(Some("Basic abc")), Err(AuthError::Missing));
    assert_eq!(bearer_token(Some("Bearer alice:xyz")), Ok("alice:xyz".to_string()));
    assert_eq!(bearer_token(Some("Bearer ")), Ok(String::new()));
}

#[test]
fn user_id_from_token() {
    assert_eq!(token_user_id("alice:abc"), "alice");
    assert_eq!(token_user_id("plain"), "plain");
}

#[test]
fn authorize_outcomes() {
    let token = "bob:0123";
    assert_eq!(authorize(token, UserLookup::Failed), Err(AuthError::Internal));
    assert_eq!(authorize(token, UserLookup::NotFound), Err(AuthError::Invalid));
    let good = profile("bob", bcrypt::hash(token, 4).unwrap());
    assert_eq!(authorize(token, UserLookup::Found(good.clone())), Ok(good));
    let bad = profile("bob", bcrypt::hash("bob:other", 4).unwrap());
    assert_eq!(authorize(token, UserLookup::Found(bad)), Err(AuthError::Invalid));
    // A stored digest that is not a bcrypt hash is a fault of the store.
    let broken = profile("bob", hex(token));
    assert_eq!(authorize(token, UserLookup::Found(broken)), Err(AuthError::Internal));
    // A token longer than bcrypt takes is refused.
    let long = format!("bob:{}", "x".repeat(80));
    let p = profile("bob", bcrypt::hash(token, 4).unwrap());
    assert_eq!(authorize(&long, UserLookup::Found(p)), Err(AuthError::Invalid));
}

#[test]
fn auth_error_answers() {
    assert_eq!(AuthError::Missing.status_code(), 401);
    assert_eq!(AuthError::Invalid.status_code(), 401);
    assert_eq!(AuthError::Internal.status_code(), 500);
    assert_eq!(AuthError::Missing.message(), "Authorization header required");
    assert_eq!(AuthError::Invalid.message(), "Invalid token");
    assert_eq!(AuthError::Internal.message(), "Auth error");
}

#[test]
fn issued_token_shape_and_hash() {
    let (token, hash) = generate_token_at("alice", 12345).unwrap();
    let secret = &hex("alice12345")[..32];
    assert_eq!(token, format!("alice:{}", secret));
    assert_eq!(hash.len(), 60);
    assert!(hash.starts_with("$2b$12$"));
    assert!(bcrypt::verify(&token, &hash).unwrap());
    assert!(!bcrypt::verify("alice:other", &hash).unwrap());
}

#[test]
fn issued_token_authenticates() {
    let (token, hash) = generate_token("carol").unwrap();
    let header = format!("Bearer {}", token);
    let t = bearer_token(Some(&header)).unwrap();
    assert_eq!(t, token);
    assert_eq!(token_user_id(&t), "carol");
    let p = profile("carol", hash);
    assert_eq!(authorize(&t, UserLookup::Found(p.clone())), Ok(p));
}

#[test]
fn overlong_user_id_gets_no_token() {
    let user = "u".repeat(39);
    assert_eq!(generate_token_at(&user, 1), Err(TokenError::TooLong));
    let user = "u".repeat(38);
    assert!(generate_token_at(&user, 1).is_ok());
}

#[test]
fn config_defaults() {
    assert!(default_true());
    assert_eq!(default_max_tokens(), 2048);
    assert_eq!(default_max_rounds(), 20);
}

fn model(thinking: bool, max_tokens: usize) -> ModelConfig {
    ModelConfig { weights_path: "w".into(), isq: "Q4K".into(), thinking, max_tokens }
}

#[test]
fn failure_stops_the_run() {
    let (mut run, _) = AgentRun::start(&AgentConfig { max_rounds: 3 }, &model(false, 100), "x");
    assert_eq!(run.on_failure(), AgentAction::Stop);
    assert_eq!(run.phase(), Phase::Finished);
    assert_eq!(run.rounds(), 0);
}

fn call(id: &str, name: &str, args: &str) -> ToolCallRequest {
    ToolCallRequest { id: id.into(), name: name.into(), arguments: args.into() }
}

#[test]
fn run_dispatches_calls_in_order_then_finishes() {
    let (mut run, a) = AgentRun::start(&AgentConfig { max_rounds: 5 }, &model(false, 512), "make it");
    assert_eq!(a, AgentAction::AskModel { max_tokens: 512 });
    assert_eq!(
        run.transcript(),
        &vec![
            ChatTurn::System(
                "You are an AI agent controlling a B-Rep CAD system via tools. /no_think".into()
            ),
            ChatTurn::User("make it".into()),
        ]
    );
    let a = run.on_model_reply(ModelReply {
        tool_calls: vec![call("c1", "box", "{\"w\":1}"), call("c2", "hole", "not json")],
        content: None,
    });
    assert_eq!(a, AgentAction::CallTool { name: "box".into(), args: "{\"w\":1}".into() });
    assert_eq!(run.phase(), Phase::AwaitingToolResult);
    let a = run.on_tool_result("ok1".into());
    assert_eq!(a, AgentAction::CallTool { name: "hole".into(), args: "null".into() });
    let a = run.on_tool_result("ok2".into());
    assert_eq!(a, AgentAction::AskModel { max_tokens: 512 });
    assert_eq!(
        run.executed_calls(),
        &vec![
            ExecutedCall { name: "box".into(), args: "{\"w\":1}".into(), result: "ok1".into() },
            ExecutedCall { name: "hole".into(), args: "null".into(), result: "ok2".into() },
        ]
    );
    assert_eq!(run.transcript().len(), 4);
    assert_eq!(
        run.transcript()[2],
        ChatTurn::ToolResult { call_id: "c1".into(), content: "ok1".into() }
    );
    assert_eq!(
        run.transcript()[3],
        ChatTurn::ToolResult { call_id: "c2".into(), content: "ok2".into() }
    );
    let a = run.on_model_reply(ModelReply { tool_calls: vec![], content: Some("Built.".into()) });
    assert_eq!(a, AgentAction::Finish(AgentResult { final_text: "Built.".into(), rounds: 2 }));
    assert_eq!(run.rounds(), 2);
    assert_eq!(run.phase(), Phase::Finished);
}

#[test]
fn reply_without_text_is_done() {
    let (mut run, _) = AgentRun::start(&AgentConfig { max_rounds: 1 }, &model(true, 2048), "x");
    let a = run.on_model_reply(ModelReply { tool_calls: vec![], content: None });
    assert_eq!(a, AgentAction::Finish(AgentResult { final_text: "Done.".into(), rounds: 1 }));
}

#[test]
fn thinking_prompt() {
    let (run, _) = AgentRun::start(&AgentConfig { max_rounds: 1 }, &model(true, 2048), "x");
    assert_eq!(
        run.transcript()[0],
        ChatTurn::System(
            "You are an AI agent controlling a B-Rep CAD system via tools. Think step by step before every tool call. /think"
                .into()
        )
    );
}

#[test]
fn round_limit_stops_the_run() {
    let (mut run, a) = AgentRun::start(&AgentConfig { max_rounds: 1 }, &model(false, 2048), "x");
    assert_eq!(a, AgentAction::AskModel { max_tokens: 2048 });
    let a = run.on_model_reply(ModelReply { tool_calls: vec![call("1", "t", "{}")], content: None });
    assert_eq!(a, AgentAction::CallTool { name: "t".into(), args: "{}".into() });
    let a = run.on_tool_result("r".into());
    assert_eq!(
        a,
        AgentAction::Finish(AgentResult {
            final_text: "Max rounds reached without a final answer.".into(),
            rounds: 1
        })
    );
}

#[test]
fn zero_round_limit_finishes_at_once() {
    let (_, a) = AgentRun::start(&AgentConfig { max_rounds: 0 }, &model(false, 2048), "x");
    assert_eq!(
        a,
        AgentAction::Finish(AgentResult {
            final_text: "Max rounds reached without a final answer.".into(),
            rounds: 0
        })
    );
}

#[test]
fn result_banner() {
    let r = AgentResult { final_text: "All set".into(), rounds: 3 };
    assert_eq!(r.banner(), "\n=== ironmind result (3 rounds) ===\nAll set");
}
