//! The agent loop (think, pick a tool, execute, repeat until done) as a state
//! machine: the driver asks the model or a tool server when the machine says so, and
//! feeds the answer back.
use vstd::prelude::*;
use crate::config::{AgentConfig, ModelConfig};
use crate::json::Json;

verus! {

/// A single MCP tool descriptor, as listed by the MCP server.
#[derive(Clone, Debug, PartialEq, Eq)]
pub struct McpTool {
    pub name: String,
    pub description: String,
    /// JSON schema of the tool's arguments.
    pub parameters: Json,
}

/// Result of one completed agent run.
#[derive(Clone, Debug, PartialEq, Eq)]
pub struct AgentResult {
    pub final_text: String,
    pub rounds: usize,
}

impl AgentResult {
    /// The report printed at the end of a command-line run:
    /// `\n=== ironmind result (<rounds> rounds) ===\n<final text>`.
    pub fn banner(&self) -> (b: String)
        ensures
            b@ == "\n=== ironmind result ("@ + crate::text::decimal(self.rounds as nat)
                + " rounds) ===\n"@ + self.final_text@,
    {
        let mut b = "\n=== ironmind result (".to_owned();
        crate::text::push_decimal(&mut b, self.rounds as u64);
        b.append(" rounds) ===\n");
        b.append(self.final_text.as_str());
        b
    }
}

/// A message of the exchange with the model.
#[derive(Clone, Debug, PartialEq, Eq)]
pub enum ChatTurn {
    System(String),
    User(String),
    /// The result of the tool call `call_id`.
    ToolResult { call_id: String, content: String },
}

/// A tool call the model asked for; `arguments` is JSON text.
#[derive(Clone, Debug, PartialEq, Eq)]
pub struct ToolCallRequest {
    pub id: String,
    pub name: String,
    pub arguments: String,
}

/// The model's reply (its first choice): the tool calls it asks for, and its text.
#[derive(Clone, Debug, PartialEq, Eq)]
pub struct ModelReply {
    pub tool_calls: Vec<ToolCallRequest>,
    pub content: Option<String>,
}

/// What the agent asks its driver to do next.
#[derive(Clone, Debug, PartialEq, Eq)]
pub enum AgentAction {
    /// Send the transcript, with the tools offered and tool choice left to the model,
    /// letting it generate at most `max_tokens` tokens, and hand back its reply.
    AskModel { max_tokens: usize },
    /// Call the tool `name` with the JSON text `args`, and hand back its result.
    CallTool { name: String, args: String },
    /// The run is over.
    Finish(AgentResult),
    /// The run was given up after a failed model request or tool call.
    Stop,
}

/// A tool call the run executed: the tool, the JSON text of its arguments, its result.
#[derive(Clone, Debug, PartialEq, Eq)]
pub struct ExecutedCall {
    pub name: String,
    pub args: String,
    pub result: String,
}

/// Where a run stands.
#[derive(Clone, Copy, Debug, PartialEq, Eq, Structural)]
pub enum Phase {
    AwaitingModel,
    AwaitingToolResult,
    Finished,
}

/// View of a transcript message.
pub enum TurnView {
    System(Seq<char>),
    User(Seq<char>),
    ToolResult(Seq<char>, Seq<char>),
}

/// View of a requested tool call: id, name, arguments.
pub type CallView = (Seq<char>, Seq<char>, Seq<char>);

/// View of an action.
pub enum ActionView {
    AskModel(nat),
    CallTool(Seq<char>, Seq<char>),
    Finish(Seq<char>, nat),
    Stop,
}

/// View of an executed call: tool, arguments, result.
pub type ExecutedView = (Seq<char>, Seq<char>, Seq<char>);

/// The abstract state of a run.
pub struct AgentState {
    pub max_rounds: nat,
    /// Generation limit of each model request.
    pub max_tokens: nat,
    /// Model replies received so far.
    pub rounds: nat,
    pub transcript: Seq<TurnView>,
    /// Tool calls of the last reply.
    pub pending: Seq<CallView>,
    /// Index in `pending` of the call being executed.
    pub next_call: nat,
    /// The tool calls executed so far, in order.
    pub executed: Seq<ExecutedView>,
    pub phase: Phase,
}

impl View for ChatTurn {
    type V = TurnView;

    open spec fn view(&self) -> TurnView {
        match self {
            ChatTurn::System(s) => TurnView::System(s@),
            ChatTurn::User(s) => TurnView::User(s@),
            ChatTurn::ToolResult { call_id, content } => TurnView::ToolResult(call_id@, content@),
        }
    }
}

impl View for ToolCallRequest {
    type V = CallView;

    open spec fn view(&self) -> CallView {
        (self.id@, self.name@, self.arguments@)
    }
}

impl View for ExecutedCall {
    type V = ExecutedView;

    open spec fn view(&self) -> ExecutedView {
        (self.name@, self.args@, self.result@)
    }
}

impl View for AgentAction {
    type V = ActionView;

    open spec fn view(&self) -> ActionView {
        match self {
            AgentAction::AskModel { max_tokens } => ActionView::AskModel(*max_tokens as nat),
            AgentAction::CallTool { name, args } => ActionView::CallTool(name@, args@),
            AgentAction::Finish(r) => ActionView::Finish(r.final_text@, r.rounds as nat),
            AgentAction::Stop => ActionView::Stop,
        }
    }
}

/// The view of the tool calls of a reply.
pub open spec fn calls_view(calls: Seq<ToolCallRequest>) -> Seq<CallView> {
    calls.map_values(|c: ToolCallRequest| c@)
}

/// The view of a reply's text.
pub open spec fn content_view(content: Option<String>) -> Option<Seq<char>> {
    match content {
        Some(s) => Some(s@),
        None => None,
    }
}

/// `text` is well-formed JSON, as serde_json parses it into a value.
pub uninterp spec fn json_parses(text: Seq<char>) -> bool;

/// Whether `text` is well-formed JSON.
/// Trusted: calls `serde_json::from_str::<serde_json::Value>(text)` and reports whether
/// it succeeded; the answer is named, a function of the text alone.
#[verifier::external_body]
fn is_json(text: &str) -> (b: bool)
    ensures
        b == json_parses(text@),
{
    serde_json::from_str::<serde_json::Value>(text).is_ok()
}

/// The JSON text `null`.
pub open spec fn null_text() -> Seq<char> {
    seq!['n', 'u', 'l', 'l']
}

/// The arguments a tool is called with: the model's argument text when it is JSON,
/// `null` otherwise.
pub open spec fn tool_args(arguments: Seq<char>) -> Seq<char> {
    if json_parses(arguments) {
        arguments
    } else {
        null_text()
    }
}

/// The system prompt; thinking mode asks the model to reason before every tool call.
pub open spec fn system_prompt_spec(thinking: bool) -> Seq<char> {
    if thinking {
        "You are an AI agent controlling a B-Rep CAD system via tools. Think step by step before every tool call. /think"@
    } else {
        "You are an AI agent controlling a B-Rep CAD system via tools. /no_think"@
    }
}

/// The answer given when the round limit is reached.
pub open spec fn max_rounds_text() -> Seq<char> {
    "Max rounds reached without a final answer."@
}

/// The answer given when the model ends without text.
pub open spec fn done_text() -> Seq<char> {
    "Done."@
}

/// A state is consistent: the rounds stay within the limit, a run waiting for the
/// model has a round left, and a run waiting for a tool has a call in progress.
pub open spec fn state_wf(s: AgentState) -> bool {
    &&& s.rounds <= s.max_rounds
    &&& s.phase == Phase::AwaitingModel ==> s.rounds < s.max_rounds
    &&& s.phase == Phase::AwaitingToolResult ==> s.next_call < s.pending.len()
}

/// Between rounds: stop when the limit is reached, otherwise ask the model.
pub open spec fn between_rounds(s: AgentState) -> (AgentState, ActionView) {
    if s.rounds >= s.max_rounds {
        (
            AgentState { phase: Phase::Finished, ..s },
            ActionView::Finish(max_rounds_text(), s.rounds),
        )
    } else {
        (AgentState { phase: Phase::AwaitingModel, ..s }, ActionView::AskModel(s.max_tokens))
    }
}

/// The start of a run: the transcript holds the system prompt and the user's input.
pub open spec fn start_spec(
    max_rounds: nat,
    max_tokens: nat,
    thinking: bool,
    user_input: Seq<char>,
) -> (AgentState, ActionView) {
    between_rounds(
        AgentState {
            max_rounds,
            max_tokens,
            rounds: 0,
            transcript: seq![TurnView::System(system_prompt_spec(thinking)), TurnView::User(user_input)],
            pending: Seq::empty(),
            next_call: 0,
            executed: Seq::empty(),
            phase: Phase::AwaitingModel,
        },
    )
}

/// A model reply: it counts as a round; its tool calls are executed in order, the
/// first one now; without tool calls, its text (or "Done.") is the final answer.
pub open spec fn on_reply_spec(s: AgentState, calls: Seq<CallView>, content: Option<Seq<char>>) -> (
    AgentState,
    ActionView,
) {
    let rounds = s.rounds + 1;
    if calls.len() > 0 {
        (
            AgentState {
                rounds,
                pending: calls,
                next_call: 0,
                phase: Phase::AwaitingToolResult,
                ..s
            },
            ActionView::CallTool(calls[0].1, tool_args(calls[0].2)),
        )
    } else {
        (
            AgentState { rounds, phase: Phase::Finished, ..s },
            ActionView::Finish(
                match content {
                    Some(t) => t,
                    None => done_text(),
                },
                rounds,
            ),
        )
    }
}

/// A tool result: it joins the transcript under the call's id and the log of executed
/// calls; the next call of the reply is executed, or the round ends.
pub open spec fn on_result_spec(s: AgentState, result: Seq<char>) -> (AgentState, ActionView) {
    let call = s.pending[s.next_call as int];
    let transcript = s.transcript.push(TurnView::ToolResult(call.0, result));
    let executed = s.executed.push((call.1, tool_args(call.2), result));
    let next = s.next_call + 1;
    if next < s.pending.len() {
        (
            AgentState { transcript, executed, next_call: next, ..s },
            ActionView::CallTool(s.pending[next as int].1, tool_args(s.pending[next as int].2)),
        )
    } else {
        between_rounds(AgentState { transcript, executed, next_call: next, ..s })
    }
}

/// A failed model request or tool call: the run is given up.
pub open spec fn on_failure_spec(s: AgentState) -> (AgentState, ActionView) {
    (AgentState { phase: Phase::Finished, ..s }, ActionView::Stop)
}

/// A running agent.
pub struct AgentRun {
    max_rounds: usize,
    max_tokens: usize,
    rounds: usize,
    transcript: Vec<ChatTurn>,
    pending: Vec<ToolCallRequest>,
    next_call: usize,
    executed: Vec<ExecutedCall>,
    phase: Phase,
}

impl View for AgentRun {
    type V = AgentState;

    closed spec fn view(&self) -> AgentState {
        AgentState {
            max_rounds: self.max_rounds as nat,
            max_tokens: self.max_tokens as nat,
            rounds: self.rounds as nat,
            transcript: self.transcript@.map_values(|t: ChatTurn| t@),
            pending: calls_view(self.pending@),
            next_call: self.next_call as nat,
            executed: self.executed@.map_values(|e: ExecutedCall| e@),
            phase: self.phase,
        }
    }
}

/// The system prompt (see `system_prompt_spec`).
pub fn system_prompt(thinking: bool) -> (p: String)
    ensures
        p@ == system_prompt_spec(thinking),
{
    if thinking {
        "You are an AI agent controlling a B-Rep CAD system via tools. Think step by step before every tool call. /think".to_owned()
    } else {
        "You are an AI agent controlling a B-Rep CAD system via tools. /no_think".to_owned()
    }
}

impl AgentRun {
    /// The run's state is consistent.
    pub closed spec fn wf(&self) -> bool {
        state_wf(self@)
    }

    /// Between rounds (see `between_rounds`).
    fn next_round(&mut self) -> (a: AgentAction)
        requires
            old(self)@.rounds <= old(self)@.max_rounds,
        ensures
            (final(self)@, a@) == between_rounds(old(self)@),
    {
        if self.rounds >= self.max_rounds {
            self.phase = Phase::Finished;
            AgentAction::Finish(
                AgentResult {
                    final_text: "Max rounds reached without a final answer.".to_owned(),
                    rounds: self.rounds,
                },
            )
        } else {
            self.phase = Phase::AwaitingModel;
            AgentAction::AskModel { max_tokens: self.max_tokens }
        }
    }

    /// Starts a run for `user_input` under the round limit of `cfg`, with the
    /// generation limit and thinking mode of `model`.
    pub fn start(cfg: &AgentConfig, model: &ModelConfig, user_input: &str) -> (r: (
        AgentRun,
        AgentAction,
    ))
        ensures
            r.0.wf(),
            (r.0@, r.1@) == start_spec(
                cfg.max_rounds as nat,
                model.max_tokens as nat,
                model.thinking,
                user_input@,
            ),
    {
        let thinking = model.thinking;
        let mut transcript: Vec<ChatTurn> = Vec::new();
        transcript.push(ChatTurn::System(system_prompt(thinking)));
        transcript.push(ChatTurn::User(user_input.to_owned()));
        let mut run = AgentRun {
            max_rounds: cfg.max_rounds,
            max_tokens: model.max_tokens,
            rounds: 0,
            transcript,
            pending: Vec::new(),
            next_call: 0,
            executed: Vec::new(),
            phase: Phase::AwaitingModel,
        };
        proof {
            assert(run@.transcript =~= seq![
                TurnView::System(system_prompt_spec(thinking)),
                TurnView::User(user_input@),
            ]);
            assert(run@.pending =~= Seq::<CallView>::empty());
            assert(run@.executed =~= Seq::<ExecutedView>::empty());
        }
        let a = run.next_round();
        (run, a)
    }

    /// The messages exchanged so far, to send to the model.
    pub fn transcript(&self) -> (t: &Vec<ChatTurn>)
        ensures
            t@.map_values(|x: ChatTurn| x@) == self@.transcript,
    {
        &self.transcript
    }

    /// The tool calls executed so far, in order, with their results.
    pub fn executed_calls(&self) -> (e: &Vec<ExecutedCall>)
        ensures
            e@.map_values(|x: ExecutedCall| x@) == self@.executed,
    {
        &self.executed
    }

    /// Gives the run up after a failed model request or tool call (see
    /// `on_failure_spec`).
    pub fn on_failure(&mut self) -> (a: AgentAction)
        ensures
            (final(self)@, a@) == on_failure_spec(old(self)@),
            old(self).wf() ==> final(self).wf(),
    {
        self.phase = Phase::Finished;
        AgentAction::Stop
    }

    /// Model replies received so far.
    pub fn rounds(&self) -> (n: usize)
        ensures
            n == self@.rounds,
    {
        self.rounds
    }

    /// Where the run stands.
    pub fn phase(&self) -> (p: Phase)
        ensures
            p == self@.phase,
    {
        self.phase
    }

    /// Takes in the model's reply (see `on_reply_spec`).
    pub fn on_model_reply(&mut self, reply: ModelReply) -> (a: AgentAction)
        requires
            old(self).wf(),
            old(self)@.phase == Phase::AwaitingModel,
        ensures
            final(self).wf(),
            (final(self)@, a@) == on_reply_spec(
                old(self)@,
                calls_view(reply.tool_calls@),
                content_view(reply.content),
            ),
    {
        self.rounds = self.rounds + 1;
        let ModelReply { tool_calls, content } = reply;
        if tool_calls.len() > 0 {
            let name = tool_calls[0].name.clone();
            let args = if is_json(tool_calls[0].arguments.as_str()) {
                tool_calls[0].arguments.clone()
            } else {
                "null".to_owned()
            };
            proof {
                reveal_strlit("null");
                assert("null"@ =~= null_text());
            }
            let ghost calls = calls_view(tool_calls@);
            proof {
                assert(calls[0] == tool_calls@[0]@);
            }
            self.pending = tool_calls;
            self.next_call = 0;
            self.phase = Phase::AwaitingToolResult;
            proof {
                assert(self@.pending == calls);
                assert(calls.len() > 0);
            }
            AgentAction::CallTool { name, args }
        } else {
            self.phase = Phase::Finished;
            let final_text = match content {
                Some(t) => t,
                None => "Done.".to_owned(),
            };
            AgentAction::Finish(AgentResult { final_text, rounds: self.rounds })
        }
    }

    /// Takes in the result of the tool call in progress (see `on_result_spec`).
    pub fn on_tool_result(&mut self, result: String) -> (a: AgentAction)
        requires
            old(self).wf(),
            old(self)@.phase == Phase::AwaitingToolResult,
        ensures
            final(self).wf(),
            (final(self)@, a@) == on_result_spec(old(self)@, result@),
    {
        let ghost s0 = self@;
        let call_id = self.pending[self.next_call].id.clone();
        let done_name = self.pending[self.next_call].name.clone();
        let done_args = if is_json(self.pending[self.next_call].arguments.as_str()) {
            self.pending[self.next_call].arguments.clone()
        } else {
            "null".to_owned()
        };
        proof {
            reveal_strlit("null");
            assert("null"@ =~= null_text());
        }
        self.executed.push(ExecutedCall { name: done_name, args: done_args, result: result.clone() });
        self.transcript.push(ChatTurn::ToolResult { call_id, content: result });
        let n = self.pending.len();
        self.next_call = self.next_call + 1;
        proof {
            assert(self@.transcript =~= s0.transcript.push(
                TurnView::ToolResult(s0.pending[s0.next_call as int].0, result@),
            ));
            assert(self@.executed =~= s0.executed.push(
                (
                    s0.pending[s0.next_call as int].1,
                    tool_args(s0.pending[s0.next_call as int].2),
                    result@,
                ),
            ));
        }
        if self.next_call < n {
            let name = self.pending[self.next_call].name.clone();
            let args = if is_json(self.pending[self.next_call].arguments.as_str()) {
                self.pending[self.next_call].arguments.clone()
            } else {
                "null".to_owned()
            };
            proof {
                reveal_strlit("null");
                assert("null"@ =~= null_text());
            }
            AgentAction::CallTool { name, args }
        } else {
            self.next_round()
        }
    }
}


/// Law: every state a run goes through is consistent: the start is, and each step
/// from a consistent state leads to one.
pub proof fn lemma_steps_keep_state_wf(
    max_rounds: nat,
    max_tokens: nat,
    thinking: bool,
    user_input: Seq<char>,
    s: AgentState,
    calls: Seq<CallView>,
    content: Option<Seq<char>>,
    result: Seq<char>,
)
    ensures
        state_wf(start_spec(max_rounds, max_tokens, thinking, user_input).0),
        state_wf(s) && s.phase == Phase::AwaitingModel ==> state_wf(
            on_reply_spec(s, calls, content).0,
        ),
        state_wf(s) && s.phase == Phase::AwaitingToolResult ==> state_wf(
            on_result_spec(s, result).0,
        ),
{
}

/// Law: a run never asks the model more than `max_rounds` times, and the rounds it
/// reports when it finishes are the model replies it received, within the limit.
pub proof fn lemma_rounds_bounded(
    s: AgentState,
    calls: Seq<CallView>,
    content: Option<Seq<char>>,
    result: Seq<char>,
)
    requires
        state_wf(s),
    ensures
        s.rounds <= s.max_rounds,
        s.phase == Phase::AwaitingModel ==> ({
            let (s2, a) = on_reply_spec(s, calls, content);
            &&& s2.rounds == s.rounds + 1 <= s.max_rounds
            &&& a matches ActionView::Finish(_, n) ==> n == s2.rounds
        }),
        s.phase == Phase::AwaitingToolResult ==> ({
            let (s2, a) = on_result_spec(s, result);
            &&& s2.rounds == s.rounds
            &&& a matches ActionView::Finish(_, n) ==> n == s.rounds && s.rounds == s.max_rounds
        }),
{
}

/// Law: with a limit of zero rounds the model is never asked: the run finishes at once
/// with the max-rounds answer and zero rounds.
pub proof fn lemma_zero_round_limit(max_tokens: nat, thinking: bool, user_input: Seq<char>)
    ensures
        start_spec(0, max_tokens, thinking, user_input).1 == ActionView::Finish(
            max_rounds_text(),
            0,
        ),
{
}

/// Law: a reply without tool calls ends the run with the reply's text, or "Done."
/// when it has none.
pub proof fn lemma_reply_without_calls_finishes(s: AgentState, content: Option<Seq<char>>)
    ensures
        on_reply_spec(s, Seq::empty(), content).1 == ActionView::Finish(
            match content {
                Some(t) => t,
                None => done_text(),
            },
            s.rounds + 1,
        ),
        on_reply_spec(s, Seq::empty(), content).0.phase == Phase::Finished,
{
}

/// Law: a reply that asks for tools has them executed, whatever text comes with it:
/// the first requested call is made, and the run waits for its result with the reply's
/// calls pending. The reply's text plays no part then; only a reply without tool calls
/// ends the run.
pub proof fn lemma_reply_with_calls_dispatches(
    s: AgentState,
    calls: Seq<CallView>,
    content: Option<Seq<char>>,
    other: Option<Seq<char>>,
)
    requires
        state_wf(s),
        s.phase == Phase::AwaitingModel,
    ensures
        calls.len() > 0 ==> on_reply_spec(s, calls, content).1 == ActionView::CallTool(
            calls[0].1,
            tool_args(calls[0].2),
        ),
        calls.len() > 0 ==> on_reply_spec(s, calls, content).0.phase == Phase::AwaitingToolResult,
        calls.len() > 0 ==> on_reply_spec(s, calls, content).0.pending == calls,
        calls.len() > 0 ==> on_reply_spec(s, calls, content).0.next_call == 0,
        calls.len() > 0 ==> on_reply_spec(s, calls, content) == on_reply_spec(s, calls, other),
        on_reply_spec(s, calls, content).1 is Finish ==> calls.len() == 0,
        on_reply_spec(s, calls, content).0.rounds == s.rounds + 1,
        on_reply_spec(s, calls, content).0.transcript == s.transcript,
{
}

/// Law: the tool calls of a reply are executed one after the other, in the order the
/// model gave them, each result joining the transcript under its call's id; after the
/// last one the run goes on to the next round, or stops at the limit.
pub proof fn lemma_tool_calls_in_order(s: AgentState, calls: Seq<CallView>, result: Seq<char>)
    requires
        state_wf(s),
    ensures
        calls.len() > 0 && s.phase == Phase::AwaitingModel ==> on_reply_spec(s, calls, None).1
            == ActionView::CallTool(calls[0].1, tool_args(calls[0].2)),
        s.phase == Phase::AwaitingToolResult ==> ({
            let (s2, a) = on_result_spec(s, result);
            let k = s.next_call as int;
            &&& s2.transcript == s.transcript.push(TurnView::ToolResult(s.pending[k].0, result))
            &&& k + 1 < s.pending.len() ==> a == ActionView::CallTool(
                s.pending[k + 1].1,
                tool_args(s.pending[k + 1].2),
            ) && s2.next_call == k + 1
            &&& k + 1 == s.pending.len() ==> (a == ActionView::AskModel(s.max_tokens)) == (
            s.rounds < s.max_rounds)
        }),
{
}

/// Law: the tool arguments handed out are always JSON: the model's text when it parses,
/// `null` otherwise.
pub proof fn lemma_tool_args(arguments: Seq<char>)
    ensures
        json_parses(arguments) ==> tool_args(arguments) == arguments,
        !json_parses(arguments) ==> tool_args(arguments) == null_text(),
{
}


/// Law: every model request a run makes carries the run's generation limit.
pub proof fn lemma_requests_capped(
    max_rounds: nat,
    max_tokens: nat,
    thinking: bool,
    user_input: Seq<char>,
    s: AgentState,
    result: Seq<char>,
)
    ensures
        start_spec(max_rounds, max_tokens, thinking, user_input).1 is AskModel ==> start_spec(
            max_rounds,
            max_tokens,
            thinking,
            user_input,
        ).1 == ActionView::AskModel(max_tokens),
        start_spec(max_rounds, max_tokens, thinking, user_input).0.max_tokens == max_tokens,
        state_wf(s) && s.phase == Phase::AwaitingToolResult && on_result_spec(s, result).1 is AskModel
            ==> on_result_spec(s, result).1 == ActionView::AskModel(s.max_tokens),
        state_wf(s) && s.phase == Phase::AwaitingToolResult ==> on_result_spec(s, result).0.max_tokens
            == s.max_tokens,
{
}

/// Law: the log of executed calls grows by exactly the call just finished, with the
/// tool, the arguments it was given and its result.
pub proof fn lemma_executed_log(s: AgentState, result: Seq<char>)
    requires
        state_wf(s),
        s.phase == Phase::AwaitingToolResult,
    ensures
        ({
            let call = s.pending[s.next_call as int];
            on_result_spec(s, result).0.executed == s.executed.push(
                (call.1, tool_args(call.2), result),
            )
        }),
{
}

/// Law: after a failure the run is finished, so it asks for nothing more.
pub proof fn lemma_failure_stops(s: AgentState)
    ensures
        on_failure_spec(s).0.phase == Phase::Finished,
        on_failure_spec(s).1 == ActionView::Stop,
        on_failure_spec(s).0.rounds == s.rounds,
{
}

} // verus!
