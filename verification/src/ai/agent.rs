//! The agent: it asks the model, runs the tool the model calls, feeds the
//! result back, and stops at a final answer or after a fixed number of tool
//! rounds. Talking to the model and running tools is left to the caller;
//! this module decides what happens next.
use vstd::prelude::*;
use crate::ai::provider::{msg_view, msgs_view, ChatCompletionMessage};
use crate::ai::tools::{prompt_head, prompt_tail, tool_entries, tool_list, tools_prompt};
use crate::json::{into_member, json_get, json_parse, json_text, json_text_of, opt_str, parse_json, JsonValue};
use crate::text::{chars_of, find, find_spec, owned, push_str, trim_range, trim_spec};

verus! {

/// Maximum number of tool-use rounds before a final answer is forced.
pub const MAX_AGENT_STEPS: usize = 10;

/// Payload emitted for each agent reasoning step.
pub struct AgentStepPayload {
    pub session_id: i64,
    pub step: usize,
    pub tool_name: String,
    pub tool_args: String,
    pub tool_result: String,
}

/// The tool call carried by a parsed call body: the `name` text, and the
/// `args` member (`None` standing for an empty object when there is none).
pub open spec fn call_of_json(v: JsonValue) -> Option<(Seq<char>, Option<JsonValue>)> {
    match opt_str(json_get(v, "name"@)) {
        Some(name) => Some((name, json_get(v, "args"@))),
        None => None,
    }
}

/// The tool name and arguments of a parsed call body
/// `{"name": "tool_name", "args": {...}}`; missing arguments are an empty object.
pub fn tool_call_from_json(v: JsonValue) -> (r: Option<(String, JsonValue)>)
    ensures
        match (r, call_of_json(v)) {
            (Some((name, args)), Some((n, a))) => name@ == n && match a {
                Some(x) => args == x,
                None => args matches JsonValue::Object(p) && p@.len() == 0,
            },
            (None, None) => true,
            _ => false,
        },
{
    let name = match v.get("name") {
        Some(n) => match n.as_str() {
            Some(s) => owned(s),
            None => return None,
        },
        None => return None,
    };
    let args = match into_member(v, "args") {
        Some(a) => a,
        None => JsonValue::Object(Vec::new()),
    };
    Some((name, args))
}

/// Where the body of the tool call in a model response lies: after the
/// first `<tool_call>`, up to the first `</tool_call>`, which must come
/// after it.
pub open spec fn call_span(response: Seq<char>) -> Option<(int, int)> {
    match (find_spec(response, "<tool_call>"@), find_spec(response, "</tool_call>"@)) {
        (Some(s), Some(e)) => {
            let a = s + "<tool_call>"@.len();
            if e <= s || e < a { None } else { Some((a, e)) }
        },
        _ => None,
    }
}

/// The tool call in a model response: the text of its span, trimmed and parsed.
pub open spec fn tool_call_of(response: Seq<char>) -> Option<(Seq<char>, Option<JsonValue>)> {
    match call_span(response) {
        Some((a, e)) => match json_parse(trim_spec(response.subrange(a, e))) {
            Some(v) => call_of_json(v),
            None => None,
        },
        None => None,
    }
}

/// The span of the tool call in `v`.
fn tool_call_span(v: &Vec<char>) -> (r: Option<(usize, usize)>)
    ensures
        match r {
            Some((a, e)) => call_span(v@) == Some((a as int, e as int)) && a <= e <= v@.len(),
            None => call_span(v@) is None,
        },
{
    let start_tag = chars_of("<tool_call>");
    let end_tag = chars_of("</tool_call>");
    let tag_len = start_tag.len();
    let start = match find(v.as_slice(), start_tag.as_slice()) {
        Some(s) => s,
        None => return None,
    };
    let end = match find(v.as_slice(), end_tag.as_slice()) {
        Some(e) => e,
        None => return None,
    };
    if end <= start || end - start < tag_len {
        return None;
    }
    Some((start + tag_len, end))
}

/// Parses a tool call from the LLM response.
/// Expected format: `<tool_call>{"name":"tool_name","args":{...}}</tool_call>`
pub fn parse_tool_call(response: &str) -> (r: Option<(String, JsonValue)>)
    ensures
        match (r, tool_call_of(response@)) {
            (Some((name, args)), Some((n, a))) => name@ == n && match a {
                Some(x) => args == x,
                None => args matches JsonValue::Object(p) && p@.len() == 0,
            },
            (None, None) => true,
            _ => false,
        },
{
    let v = chars_of(response);
    let (a, e) = match tool_call_span(&v) {
        Some(span) => span,
        None => return None,
    };
    let json_str = trim_range(&v, a, e);
    match parse_json(json_str.as_str()) {
        Some(parsed) => tool_call_from_json(parsed),
        None => None,
    }
}

} // verus!

verus! {

/// The system prompt of the agent: its role, the tools prompt, and how to answer.
pub open spec fn agent_system_prompt() -> Seq<char> {
    "You are an intelligent agent that can use tools to help answer questions about the user's documents.\n\n"@
        + (prompt_head() + tool_entries(tool_list()) + prompt_tail())
        + "\nThink step-by-step. Use tools to gather information before answering.\nWhen you have gathered enough information, provide your final answer directly without any tool calls."@
}

/// Where an agent run stands.
pub enum AgentPhase {
    /// Waiting for the model's next message.
    AwaitingResponse,
    /// Waiting for the result of the tool the model called in `response`.
    AwaitingTool { response: String, tool_name: String },
    /// The model answered without calling a tool.
    Answered,
    /// The run used up its tool rounds; a final answer is forced.
    Exhausted,
}

/// What the caller does next.
pub enum AgentAction {
    /// Ask the model for a (non-streamed) completion of the run's messages.
    CallModel,
    /// Run the tool `name` with `args`; this is tool round `step`.
    RunTool { name: String, args: JsonValue, step: usize },
    /// Stream the final answer: a completion of the messages that
    /// `AgentRun::answer_context` gives.
    StreamAnswer,
}

/// The state of one agent run: the conversation so far and the number of
/// tool rounds completed.
pub struct AgentRun {
    pub messages: Vec<ChatCompletionMessage>,
    pub step: usize,
    pub phase: AgentPhase,
}

/// The agent executor: starts runs and decides each next step.
pub struct AgentExecutor;

impl AgentRun {
    /// The run is consistent: the system prompt and the user prompt come
    /// first, each completed tool round added two messages, a final answer
    /// one more, and no more than the allowed rounds were used.
    pub open spec fn wf(&self) -> bool {
        &&& self.step <= MAX_AGENT_STEPS
        &&& self.messages@.len() >= 2
        &&& msg_view(self.messages@[0]) == ("system"@, agent_system_prompt())
        &&& self.messages@[1].role@ == "user"@
        &&& match self.phase {
            AgentPhase::Answered => self.messages@.len() == 2 + 2 * self.step + 1,
            AgentPhase::Exhausted => self.messages@.len() == 2 + 2 * self.step && self.step == MAX_AGENT_STEPS,
            _ => self.messages@.len() == 2 + 2 * self.step && self.step < MAX_AGENT_STEPS,
        }
    }
}

/// The text a tool round reports: the tool's answer, or its error.
pub open spec fn tool_outcome_text(result: Result<Seq<char>, Seq<char>>) -> Seq<char> {
    match result {
        Ok(r) => r,
        Err(e) => "Tool error: "@ + e,
    }
}

/// The text a tool round reports: the tool's answer, or `Tool error:` and its error.
pub fn tool_result_text(result: &Result<String, String>) -> (r: String)
    ensures
        r@ == tool_outcome_text(match result { Ok(x) => Ok(x@), Err(e) => Err(e@) }),
{
    match result {
        Ok(x) => x.clone(),
        Err(e) => {
            let mut r = owned("Tool error: ");
            push_str(&mut r, e.as_str());
            r
        },
    }
}

/// The event payload of tool round `step`: the tool's name, its arguments
/// as compact JSON text, and the text the round reports.
pub fn agent_step_payload(session_id: i64, step: usize, tool_name: &str, args: &JsonValue, result: &Result<String, String>) -> (p: AgentStepPayload)
    ensures
        p.session_id == session_id,
        p.step == step,
        p.tool_name@ == tool_name@,
        p.tool_args@ == json_text_of(*args),
        p.tool_result@ == tool_outcome_text(match result { Ok(x) => Ok(x@), Err(e) => Err(e@) }),
{
    AgentStepPayload {
        session_id,
        step,
        tool_name: owned(tool_name),
        tool_args: json_text(args),
        tool_result: tool_result_text(result),
    }
}

impl AgentExecutor {
    /// Starts a run for the user's prompt; the first action is to call the model.
    pub fn start(user_prompt: &str) -> (r: (AgentRun, AgentAction))
        ensures
            r.0.wf(),
            msgs_view(r.0.messages@) == seq![("system"@, agent_system_prompt()), ("user"@, user_prompt@)],
            r.0.step == 0,
            r.0.phase is AwaitingResponse,
            r.1 is CallModel,
    {
        let mut system_prompt = owned(
            "You are an intelligent agent that can use tools to help answer questions about the user's documents.\n\n",
        );
        let tp = tools_prompt();
        push_str(&mut system_prompt, tp.as_str());
        push_str(
            &mut system_prompt,
            "\nThink step-by-step. Use tools to gather information before answering.\nWhen you have gathered enough information, provide your final answer directly without any tool calls.",
        );
        let messages = vec![
            ChatCompletionMessage::new("system", system_prompt.as_str()),
            ChatCompletionMessage::new("user", user_prompt),
        ];
        assert(msgs_view(messages@) =~= seq![("system"@, agent_system_prompt()), ("user"@, user_prompt@)]);
        (AgentRun { messages, step: 0, phase: AgentPhase::AwaitingResponse }, AgentAction::CallModel)
    }
}

impl AgentRun {
    /// Takes the model's response. A tool call in it makes the next action
    /// running that tool; otherwise the response is the final answer, which
    /// joins the conversation and is streamed.
    pub fn on_response(&mut self, response: String) -> (action: AgentAction)
        requires
            old(self).wf(),
            old(self).phase is AwaitingResponse,
        ensures
            final(self).wf(),
            final(self).step == old(self).step,
            match tool_call_of(response@) {
                Some((n, a)) => {
                    &&& final(self).messages@ == old(self).messages@
                    &&& final(self).phase matches AgentPhase::AwaitingTool { response: r, tool_name: t }
                        && r@ == response@ && t@ == n
                    &&& action matches AgentAction::RunTool { name, args, step }
                        && name@ == n && step == old(self).step + 1
                        && match a {
                            Some(x) => args == x,
                            None => args matches JsonValue::Object(p) && p@.len() == 0,
                        }
                },
                None => {
                    &&& msgs_view(final(self).messages@) == msgs_view(old(self).messages@).push(("assistant"@, response@))
                    &&& final(self).phase is Answered
                    &&& action is StreamAnswer
                },
            },
    {
        match parse_tool_call(response.as_str()) {
            Some((name, args)) => {
                let tool_name = name.clone();
                self.phase = AgentPhase::AwaitingTool { response, tool_name };
                AgentAction::RunTool { name, args, step: self.step + 1 }
            },
            None => {
                let m = ChatCompletionMessage::new("assistant", response.as_str());
                self.messages.push(m);
                self.phase = AgentPhase::Answered;
                proof {
                    assert(msgs_view(self.messages@) =~= msgs_view(old(self).messages@).push(("assistant"@, response@)));
                }
                AgentAction::StreamAnswer
            },
        }
    }

    /// Takes the result of the tool called in the pending response. The
    /// response and the tool's report join the conversation and the round is
    /// counted; the model is called again, or, once the rounds are used up,
    /// a final answer is forced from the conversation as it stands.
    pub fn on_tool_result(&mut self, result: Result<String, String>) -> (action: AgentAction)
        requires
            old(self).wf(),
            old(self).phase is AwaitingTool,
        ensures
            final(self).wf(),
            final(self).step == old(self).step + 1,
            match old(self).phase {
                AgentPhase::AwaitingTool { response, tool_name } =>
                    msgs_view(final(self).messages@) == msgs_view(old(self).messages@)
                        .push(("assistant"@, response@))
                        .push(("tool"@, "[Tool: "@ + tool_name@ + "] Result:\n"@
                            + tool_outcome_text(match result { Ok(x) => Ok(x@), Err(e) => Err(e@) }))),
                _ => false,
            },
            final(self).step < MAX_AGENT_STEPS ==> (action is CallModel && final(self).phase is AwaitingResponse),
            final(self).step == MAX_AGENT_STEPS ==> (action is StreamAnswer && final(self).phase is Exhausted),
    {
        let mut phase = AgentPhase::AwaitingResponse;
        std::mem::swap(&mut phase, &mut self.phase);
        match phase {
            AgentPhase::AwaitingTool { response, tool_name } => {
                let outcome = tool_result_text(&result);
                let mut report = owned("[Tool: ");
                push_str(&mut report, tool_name.as_str());
                push_str(&mut report, "] Result:\n");
                push_str(&mut report, outcome.as_str());
                let ghost before = msgs_view(self.messages@);
                self.messages.push(ChatCompletionMessage::new("assistant", response.as_str()));
                self.messages.push(ChatCompletionMessage { role: owned("tool"), content: report });
                proof {
                    assert(msgs_view(self.messages@) =~= before.push(("assistant"@, response@)).push(("tool"@, report@)));
                }
                self.step = self.step + 1;
                if self.step < MAX_AGENT_STEPS {
                    AgentAction::CallModel
                } else {
                    self.phase = AgentPhase::Exhausted;
                    AgentAction::StreamAnswer
                }
            },
            _ => {
                proof {
                    assert(false);
                }
                AgentAction::CallModel
            },
        }
    }

    /// The messages to stream the final answer from: after an answer, all
    /// but the answer itself; after the last tool round, all of them.
    pub fn answer_context(&self) -> (r: Vec<ChatCompletionMessage>)
        requires
            self.wf(),
            self.phase is Answered || self.phase is Exhausted,
        ensures
            self.phase is Answered ==> r@ == self.messages@.drop_last(),
            self.phase is Exhausted ==> r@ == self.messages@,
    {
        let mut r: Vec<ChatCompletionMessage> = Vec::new();
        let n = match self.phase {
            AgentPhase::Answered => self.messages.len() - 1,
            _ => self.messages.len(),
        };
        let mut i: usize = 0;
        while i < n
            invariant
                self.phase is Answered ==> n == self.messages@.len() - 1,
                !(self.phase is Answered) ==> n == self.messages@.len(),
                n <= self.messages@.len(),
                i <= n,
                r@ == self.messages@.take(i as int),
            decreases n - i,
        {
            r.push(self.messages[i].duplicate());
            i = i + 1;
            assert(r@ == self.messages@.take(i as int));
        }
        assert(self.messages@.take(self.messages@.len() as int) == self.messages@);
        r
    }
}

} // verus!
