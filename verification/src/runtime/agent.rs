//! One turn: the model is asked, its tools run, until it answers.
use super::budget::{
    available_context_tokens, capped, empty_result, estimate_tokens, free_tokens, is_cut, less_by,
    message_bytes, request_messages, request_of, token_bytes, tokens_of, tool_message_overhead,
    total_bytes, truncate_tool_output, MAX_TOOL_CALLS_PER_MESSAGE, MIN_TOOL_OUTPUT_TOKENS,
};
use super::context::{summary_as_message, summary_message};
use super::message::{clone_calls, Message, MessageView, ToolCall, ToolCallView};
use crate::json;
use crate::json::{fields_of, json_fault, read_json, Json, JsonView};
use crate::text;
use crate::tool::{
    ExecutionPlan, PlanStatus, PlanStep, PlanStepView, PlanView, ToolResult, ToolResultView,
};
use vstd::prelude::*;
use vstd::string::*;
use vstd::utf8::*;

verus! {

/// A summary that stands for the messages before `through`.
#[derive(Debug, PartialEq)]
pub struct Compaction {
    pub summary: String,
    pub through: usize,
}

pub struct CompactionView {
    pub summary: Seq<char>,
    pub through: usize,
}

impl DeepView for Compaction {
    type V = CompactionView;

    open spec fn deep_view(&self) -> CompactionView {
        CompactionView { summary: self.summary@, through: self.through }
    }
}

/// What the model sent.
#[derive(Debug, PartialEq)]
pub struct Response {
    pub reasoning: String,
    pub text: String,
    pub calls: Vec<ToolCall>,
    /// The tokens of the request and the response, where the model told them.
    pub total_tokens: Option<u64>,
    pub items: Vec<Json>,
}

pub struct ResponseView {
    pub reasoning: Seq<char>,
    pub text: Seq<char>,
    pub calls: Seq<ToolCallView>,
    pub total_tokens: Option<u64>,
    pub items: Seq<JsonView>,
}

impl DeepView for Response {
    type V = ResponseView;

    open spec fn deep_view(&self) -> ResponseView {
        ResponseView {
            reasoning: self.reasoning@,
            text: self.text@,
            calls: self.calls.deep_view(),
            total_tokens: self.total_tokens,
            items: self.items.deep_view(),
        }
    }
}

/// A turn that is under way.
#[derive(Debug, PartialEq)]
pub struct Agent {
    pub messages: Vec<Message>,
    /// The index of the first message that this turn made.
    pub persist_from: usize,
    /// The index, in the whole conversation, of the message that began the turn.
    pub user_index: usize,
    pub prompt: Option<String>,
    pub plan: Option<ExecutionPlan>,
    pub model: String,
    pub max_tokens: u64,
    pub compaction: Option<Compaction>,
    /// Whether room was made once; a turn makes room only once.
    pub compacted: bool,
    /// The tokens of the context that are taken.
    pub used: u64,
    /// The calls of the last response.
    pub calls: Vec<ToolCall>,
    /// The number of those calls that have a result.
    pub done: usize,
}

pub struct AgentView {
    pub messages: Seq<MessageView>,
    pub persist_from: usize,
    pub user_index: usize,
    pub prompt: Option<Seq<char>>,
    pub plan: Option<PlanView>,
    pub model: Seq<char>,
    pub max_tokens: u64,
    pub compaction: Option<CompactionView>,
    pub compacted: bool,
    pub used: u64,
    pub calls: Seq<ToolCallView>,
    pub done: usize,
}

impl DeepView for Agent {
    type V = AgentView;

    open spec fn deep_view(&self) -> AgentView {
        AgentView {
            messages: self.messages.deep_view(),
            persist_from: self.persist_from,
            user_index: self.user_index,
            prompt: self.prompt.deep_view(),
            plan: self.plan.deep_view(),
            model: self.model@,
            max_tokens: self.max_tokens,
            compaction: self.compaction.deep_view(),
            compacted: self.compacted,
            used: self.used,
            calls: self.calls.deep_view(),
            done: self.done,
        }
    }
}

/// What a call needs before it can run.
#[derive(Debug, PartialEq)]
pub enum Admission {
    /// It can run, with this many tokens left for its result.
    Run { available: u64 },
    /// The messages before the turn must be summarized first.
    Summarize { before: usize },
    /// There is no room, and none can be made.
    Exhausted,
}

/// What is said of a turn that has no room for a result, and can make none.
pub fn exhausted() -> (error: String)
    ensures
        error@ == "context exhausted: no room left for a tool result"@,
{
    "context exhausted: no room left for a tool result".to_owned()
}

/// What is said of a call that was not allowed.
pub fn denied(tool: &str) -> (error: String)
    ensures
        error@ == "tool "@ + tool@ + " was denied"@,
{
    text::join_three("tool ", tool, " was denied")
}

/// The least number of tokens of the context that a call's result takes.
pub open spec fn overhead(call: ToolCallView) -> u64 {
    capped(tokens_of(seq![empty_result(call.id)]))
}

/// The tokens that are left for the content of a call's result.
pub open spec fn available_for(used: u64, max_tokens: u64, call: ToolCallView) -> u64 {
    less_by(less_by(max_tokens, used), overhead(call))
}

/// What the next call needs.
pub open spec fn admission(agent: AgentView) -> Admission {
    let available = available_for(agent.used, agent.max_tokens, agent.calls[agent.done as int]);
    if available >= MIN_TOOL_OUTPUT_TOKENS {
        Admission::Run { available }
    } else if agent.persist_from == 0 || agent.compacted {
        Admission::Exhausted
    } else {
        Admission::Summarize { before: agent.persist_from }
    }
}

/// The tokens that a result may take: a fifth of what is left, but not less than
/// the least that a result needs.
pub open spec fn output_share(available: u64) -> u64 {
    let share = available / 5;
    let floor = if share > MIN_TOOL_OUTPUT_TOKENS {
        share
    } else {
        MIN_TOOL_OUTPUT_TOKENS
    };
    if floor < available {
        floor
    } else {
        available
    }
}

/// The tokens that a result may take, of those that are left.
pub fn output_tokens(available: u64) -> (tokens: u64)
    ensures
        tokens == output_share(available),
        tokens <= available,
{
    let share: u64 = available / 5;
    let floor: u64 = if share > MIN_TOOL_OUTPUT_TOKENS {
        share
    } else {
        MIN_TOOL_OUTPUT_TOKENS
    };
    if floor < available {
        floor
    } else {
        available
    }
}

/// The calls that a message keeps.
pub open spec fn kept_calls(calls: Seq<ToolCallView>) -> Seq<ToolCallView> {
    if calls.len() > MAX_TOOL_CALLS_PER_MESSAGE {
        calls.take(MAX_TOOL_CALLS_PER_MESSAGE as int)
    } else {
        calls
    }
}

/// A turn behind messages that the user sent during it.
pub open spec fn after_steers(agent: AgentView, steers: Seq<MessageView>) -> AgentView {
    AgentView { messages: agent.messages + steers, ..agent }
}

/// A turn behind a response of the model.
pub open spec fn after_response(agent: AgentView, response: ResponseView) -> AgentView {
    let calls = kept_calls(response.calls);
    let messages = agent.messages.push(
        MessageView::Assistant {
            content: response.text,
            model: agent.model,
            reasoning: response.reasoning,
            tool_calls: calls,
            response_items: response.items,
        },
    );
    AgentView {
        messages,
        used: match response.total_tokens {
            Some(total) => total,
            None => less_by(
                agent.max_tokens,
                free_tokens(messages, agent.max_tokens, agent.prompt, agent.plan),
            ),
        },
        calls,
        done: 0,
        ..agent
    }
}

/// A turn behind a summary of the messages before it.
pub open spec fn after_summary(agent: AgentView, summary: Seq<char>) -> AgentView {
    let messages = seq![summary_message(summary)] + agent.messages.skip(agent.persist_from as int);
    AgentView {
        messages,
        persist_from: 1,
        compacted: true,
        compaction: Some(CompactionView { summary, through: agent.user_index }),
        used: less_by(
            agent.max_tokens,
            free_tokens(messages, agent.max_tokens, agent.prompt, agent.plan),
        ),
        ..agent
    }
}

/// The text of a result: that of the tool, or of its error.
pub open spec fn result_text(result: Result<ToolResultView, Seq<char>>) -> Seq<char> {
    match result {
        Ok(result) => result.output,
        Err(error) => "Error: "@ + error,
    }
}

/// A result with the content that is kept of it.
pub open spec fn result_message(
    call: ToolCallView,
    result: Result<ToolResultView, Seq<char>>,
    content: Seq<char>,
) -> MessageView {
    MessageView::Tool {
        call_id: call.id,
        content,
        image: match result {
            Ok(result) => result.image,
            Err(_) => None,
        },
        diff: match result {
            Ok(result) => result.diff,
            Err(_) => None,
        },
    }
}

/// A turn behind the result of a call.
pub open spec fn after_result(
    agent: AgentView,
    message: MessageView,
    plan: Option<PlanView>,
) -> AgentView {
    AgentView {
        messages: agent.messages.push(message),
        used: capped((agent.used + capped(tokens_of(seq![message]))) as nat),
        plan,
        done: (agent.done + 1) as usize,
        ..agent
    }
}

/// What was kept of the result of a call.
#[derive(Debug, PartialEq)]
pub struct Delivered {
    pub output: String,
    pub success: bool,
    pub diff: Option<String>,
    /// The plan, where the call stored one.
    pub plan: Option<ExecutionPlan>,
}

impl Agent {
    /// The places lie inside the messages and the calls.
    pub open spec fn wf(&self) -> bool {
        self.persist_from <= self.messages@.len() && self.done <= self.calls@.len()
    }

    /// A turn that answers the last of `messages`.
    pub fn new(
        messages: Vec<Message>,
        user_index: usize,
        prompt: Option<String>,
        plan: Option<ExecutionPlan>,
        model: String,
        max_tokens: u64,
    ) -> (agent: Agent)
        ensures
            agent.wf(),
            agent.deep_view() == (AgentView {
                messages: messages.deep_view(),
                persist_from: (if messages@.len() > 0 {
                    messages@.len() - 1
                } else {
                    0
                }) as usize,
                user_index,
                prompt: prompt.deep_view(),
                plan: plan.deep_view(),
                model: model@,
                max_tokens,
                compaction: None,
                compacted: false,
                used: 0,
                calls: Seq::empty(),
                done: 0,
            }),
    {
        let persist_from: usize = if messages.len() > 0 {
            messages.len() - 1
        } else {
            0
        };
        let calls: Vec<ToolCall> = Vec::new();
        assert(calls.deep_view() =~= Seq::empty());
        Agent {
            messages,
            persist_from,
            user_index,
            prompt,
            plan,
            model,
            max_tokens,
            compaction: None,
            compacted: false,
            used: 0,
            calls,
            done: 0,
        }
    }

    /// What goes to the model.
    pub fn request(&self) -> (messages: Vec<Message>)
        ensures
            messages.deep_view() == request_of(
                self.messages.deep_view(),
                self.prompt.deep_view(),
                self.plan.deep_view(),
            ),
    {
        request_messages(&self.messages, &self.prompt, &self.plan)
    }

    /// Takes in what the user sent during the turn, before the next request. Every call
    /// has its result by then, so results still stand behind their calls.
    pub fn steer(&mut self, steers: Vec<Message>)
        requires
            old(self).wf(),
            old(self).done == old(self).calls@.len(),
        ensures
            final(self).wf(),
            final(self).deep_view() == after_steers(old(self).deep_view(), steers.deep_view()),
    {
        let ghost before = self.messages.deep_view();
        let ghost sent = steers.deep_view();
        let mut steers = steers;
        self.messages.append(&mut steers);
        assert(self.messages.deep_view() =~= before + sent);
    }

    /// Takes in a response. What the turn made is given back where the model asks
    /// for no tool: the turn is then over.
    pub fn respond(&mut self, response: Response) -> (finished: Option<Vec<Message>>)
        requires
            old(self).wf(),
        ensures
            final(self).wf(),
            final(self).deep_view() == after_response(
                old(self).deep_view(),
                response.deep_view(),
            ),
            match finished {
                Some(made) => {
                    &&& response.calls@.len() == 0
                    &&& made.deep_view() == final(self).deep_view().messages.skip(
                        final(self).persist_from as int,
                    )
                },
                None => response.calls@.len() > 0,
            },
    {
        let ghost before = self.deep_view();
        let ghost sent = response.deep_view();
        let mut calls = response.calls;
        calls.truncate(MAX_TOOL_CALLS_PER_MESSAGE);
        proof {
            if sent.calls.len() > MAX_TOOL_CALLS_PER_MESSAGE {
                assert(calls.deep_view() =~= sent.calls.take(MAX_TOOL_CALLS_PER_MESSAGE as int));
            } else {
                assert(calls.deep_view() =~= sent.calls);
            }
        }
        let copy = clone_calls(&calls);
        let message = Message::Assistant {
            content: response.text,
            model: self.model.clone(),
            reasoning: response.reasoning,
            tool_calls: copy,
            response_items: response.items,
        };
        let ghost view = message.deep_view();
        self.messages.push(message);
        assert(self.messages.deep_view() =~= before.messages.push(view));
        self.used = match response.total_tokens {
            Some(total) => total,
            None => {
                let free: u64 = available_context_tokens(
                    &self.messages,
                    self.max_tokens,
                    &self.prompt,
                    &self.plan,
                );
                if self.max_tokens >= free {
                    self.max_tokens - free
                } else {
                    0
                }
            },
        };
        self.calls = calls;
        self.done = 0;
        if self.calls.len() == 0 {
            Some(tail(&self.messages, self.persist_from))
        } else {
            None
        }
    }

    /// What the next call needs.
    pub fn check_room(&self) -> (result: Admission)
        requires
            self.wf(),
            self.done < self.calls@.len(),
        ensures
            result == admission(self.deep_view()),
    {
        assert(self.deep_view().calls[self.done as int] == self.calls@[self.done as int].deep_view());
        let available: u64 = self.available();
        if available >= MIN_TOOL_OUTPUT_TOKENS {
            Admission::Run { available }
        } else if self.persist_from == 0 || self.compacted {
            Admission::Exhausted
        } else {
            Admission::Summarize { before: self.persist_from }
        }
    }

    fn available(&self) -> (tokens: u64)
        requires
            self.done < self.calls@.len(),
        ensures
            tokens == available_for(
                self.used,
                self.max_tokens,
                self.calls@[self.done as int].deep_view(),
            ),
    {
        let reserved: u64 = tool_message_overhead(&self.calls[self.done]);
        let remaining: u64 = if self.max_tokens >= self.used {
            self.max_tokens - self.used
        } else {
            0
        };
        if remaining >= reserved {
            remaining - reserved
        } else {
            0
        }
    }

    /// The messages to summarize to make room.
    pub fn to_summarize(&self) -> (messages: Vec<Message>)
        requires
            self.wf(),
        ensures
            messages.deep_view() == self.messages.deep_view().take(self.persist_from as int),
    {
        let mut result: Vec<Message> = Vec::new();
        let mut i: usize = 0;
        while i < self.persist_from
            invariant
                i <= self.persist_from <= self.messages@.len(),
                result@.len() == i,
                forall|k: int|
                    0 <= k < i ==> (#[trigger] result@[k]).deep_view()
                        == self.messages@[k].deep_view(),
            decreases self.persist_from - i,
        {
            result.push(self.messages[i].clone());
            i += 1;
        }
        assert(result.deep_view() =~= self.messages.deep_view().take(self.persist_from as int));
        result
    }

    /// Puts a summary in the place of the messages before the turn, and says how
    /// many tokens are left for the next result. There is an error where they are
    /// too few still.
    pub fn make_room(&mut self, summary: String) -> (result: Result<u64, String>)
        requires
            old(self).wf(),
            old(self).done < old(self).calls@.len(),
        ensures
            final(self).wf(),
            final(self).deep_view() == after_summary(old(self).deep_view(), summary@),
            ({
                let available = available_for(
                    final(self).used,
                    final(self).max_tokens,
                    final(self).deep_view().calls[final(self).done as int],
                );
                match result {
                    Ok(tokens) => tokens == available && available >= MIN_TOOL_OUTPUT_TOKENS,
                    Err(error) => available < MIN_TOOL_OUTPUT_TOKENS && error@
                        == "context exhausted: compaction could not free room for a tool result"@,
                }
            }),
    {
        let ghost before = self.deep_view();
        let mut kept = tail(&self.messages, self.persist_from);
        let first = summary_as_message(summary.as_str());
        let ghost head = first.deep_view();
        let ghost rest = kept.deep_view();
        kept.insert(0, first);
        assert(kept.deep_view() =~= seq![head] + rest);
        self.messages = kept;
        self.persist_from = 1;
        self.compacted = true;
        let ghost told = summary@;
        self.compaction = Some(Compaction { summary, through: self.user_index });
        let free: u64 = available_context_tokens(
            &self.messages,
            self.max_tokens,
            &self.prompt,
            &self.plan,
        );
        self.used = if self.max_tokens >= free {
            self.max_tokens - free
        } else {
            0
        };
        assert(self.deep_view() == after_summary(before, told));
        let available: u64 = self.available();
        if available < MIN_TOOL_OUTPUT_TOKENS {
            Err(
                "context exhausted: compaction could not free room for a tool result".to_owned(),
            )
        } else {
            Ok(available)
        }
    }

    /// Takes in the result of the next call, cut to `tokens` tokens, and says what
    /// was kept of it. There is an error where the result of storing a plan is none.
    pub fn finish_call(&mut self, result: Result<ToolResult, String>, tokens: u64) -> (delivered: Result<
        Delivered,
        String,
    >)
        requires
            old(self).wf(),
            old(self).done < old(self).calls@.len(),
        ensures
            ({
                let call = old(self).deep_view().calls[old(self).done as int];
                let view = result_view(result);
                let stores = result is Ok && call.name == "update_plan"@;
                match delivered {
                    Ok(kept) => {
                        &&& is_cut(result_text(view), token_bytes(tokens), kept.output@)
                        &&& encode_utf8(kept.output@).len() <= token_bytes(tokens)
                        &&& kept.success == (result is Ok)
                        &&& kept.diff.deep_view() == result_message(call, view, kept.output@)->Tool_diff
                        &&& stores ==> kept.plan.deep_view() == stored_plan(kept.output@)
                            && kept.plan is Some
                        &&& !stores ==> kept.plan is None
                        &&& final(self).wf()
                        &&& final(self).deep_view() == after_result(
                            old(self).deep_view(),
                            result_message(call, view, kept.output@),
                            if stores {
                                kept.plan.deep_view()
                            } else {
                                old(self).deep_view().plan
                            },
                        )
                    },
                    Err(error) => {
                        &&& stores
                        &&& exists|output: Seq<char>| #[trigger]
                            is_cut(result_text(view), token_bytes(tokens), output) && stored_plan(
                                output,
                            ) is None && error@ == plan_fault(output)
                        &&& *final(self) == *old(self)
                    },
                }
            }),
    {
        let ghost before = self.deep_view();
        let ghost call_view = before.calls[self.done as int];
        assert(call_view == self.calls@[self.done as int].deep_view());
        let ghost view = result_view(result);
        let count: usize = self.calls.len();
        let call_id = self.calls[self.done].id.clone();
        let is_plan = text::same(self.calls[self.done].name.as_str(), "update_plan");
        let (whole, image, diff, success) = match result {
            Ok(result) => (result.output, result.image, result.diff, true),
            Err(error) => (text::join_two("Error: ", error.as_str()), None, None, false),
        };
        assert(whole@ == result_text(view));
        let output = truncate_tool_output(whole, tokens);
        assert(is_cut(result_text(view), token_bytes(tokens), output@));
        let mut stored: Option<ExecutionPlan> = None;
        if success && is_plan {
            match decode_plan(output.as_str()) {
                Ok(plan) => {
                    stored = Some(plan);
                },
                Err(error) => {
                    return Err(error);
                },
            }
        }
        let message = Message::tool(call_id, output.clone(), image, diff.clone());
        let ghost message_view = message.deep_view();
        assert(message_view == result_message(call_view, view, output@));
        let mut one: Vec<Message> = Vec::new();
        one.push(message.clone());
        assert(one.deep_view() =~= seq![message_view]);
        let cost: u64 = estimate_tokens(&one);
        self.used = self.used.saturating_add(cost);
        self.messages.push(message);
        assert(self.messages.deep_view() =~= before.messages.push(message_view));
        assert(self.done < count);
        self.done = self.done + 1;
        if success && is_plan {
            self.plan = stored.clone();
        }
        Ok(Delivered { output, success, diff, plan: stored })
    }
}

/// The result of a tool, as values.
pub open spec fn result_view(result: Result<ToolResult, String>) -> Result<
    ToolResultView,
    Seq<char>,
> {
    match result {
        Ok(result) => Ok(result.deep_view()),
        Err(error) => Err(error@),
    }
}

/// The messages from `from` on.
fn tail(messages: &Vec<Message>, from: usize) -> (result: Vec<Message>)
    requires
        from <= messages@.len(),
    ensures
        result.deep_view() == messages.deep_view().skip(from as int),
{
    let mut result: Vec<Message> = Vec::new();
    let mut i: usize = from;
    while i < messages.len()
        invariant
            from <= i <= messages@.len(),
            result@.len() == i - from,
            forall|k: int|
                0 <= k < i - from ==> (#[trigger] result@[k]).deep_view() == messages@[from
                    + k].deep_view(),
        decreases messages@.len() - i,
    {
        result.push(messages[i].clone());
        i += 1;
    }
    assert(result.deep_view() =~= messages.deep_view().skip(from as int));
    result
}

// ---------------------------------------------------------------------------
// Plans
// ---------------------------------------------------------------------------

/// The status that a name stands for.
pub open spec fn status_of(name: Seq<char>) -> Option<PlanStatus> {
    if name == "pending"@ {
        Some(PlanStatus::Pending)
    } else if name == "in_progress"@ {
        Some(PlanStatus::InProgress)
    } else if name == "completed"@ {
        Some(PlanStatus::Completed)
    } else {
        None
    }
}

/// The fields of a step.
pub open spec fn step_fields() -> Seq<Seq<char>> {
    seq!["step"@, "status"@]
}

/// The step that a JSON value writes.
pub open spec fn step_of(value: JsonView) -> Option<PlanStepView> {
    let value = fields_of(value, step_fields(), 2);
    match (value.text_at("step"@), value.text_at("status"@)) {
        (Some(step), Some(status)) => match status_of(status) {
            Some(status) => Some(PlanStepView { step, status }),
            None => None,
        },
        _ => None,
    }
}

/// The steps that JSON values write.
pub open spec fn steps_of(values: Seq<JsonView>) -> Option<Seq<PlanStepView>>
    decreases values.len(),
{
    if values.len() == 0 {
        Some(Seq::empty())
    } else {
        match (steps_of(values.drop_last()), step_of(values.last())) {
            (Some(steps), Some(step)) => Some(steps.push(step)),
            _ => None,
        }
    }
}

/// The fields of a plan.
pub open spec fn plan_fields() -> Seq<Seq<char>> {
    seq!["explanation"@, "plan"@]
}

/// The plan that a JSON value writes.
pub open spec fn plan_of(value: JsonView) -> Option<PlanView> {
    let value = fields_of(value, plan_fields(), 2);
    let steps = match value.array_at("plan"@) {
        Some(values) => steps_of(values),
        None => None,
    };
    match (steps, value.get("explanation"@)) {
        (Some(plan), Some(JsonView::Text(explanation))) => Some(
            PlanView { explanation: Some(explanation), plan },
        ),
        (Some(plan), Some(JsonView::Null)) => Some(PlanView { explanation: None, plan }),
        (Some(plan), None) => Some(PlanView { explanation: None, plan }),
        _ => None,
    }
}

/// The plan that a text writes.
pub open spec fn stored_plan(output: Seq<char>) -> Option<PlanView> {
    match read_json(output) {
        Some(value) => plan_of(value),
        None => None,
    }
}

fn parse_step(value: &Json) -> (result: Option<PlanStep>)
    ensures
        result.deep_view() == step_of(value.deep_view()),
{
    let names = vec!["step", "status"];
    assert(names.deep_view() =~= step_fields());
    let named = json::by_fields(value, &names, 2);
    let value = match &named {
        Some(named) => named,
        None => value,
    };
    let step = match value.text_at("step") {
        Some(step) => step,
        None => {
            return None;
        },
    };
    let status = match value.text_at("status") {
        Some(status) => status,
        None => {
            return None;
        },
    };
    let status = if text::same(status.as_str(), "pending") {
        PlanStatus::Pending
    } else if text::same(status.as_str(), "in_progress") {
        PlanStatus::InProgress
    } else if text::same(status.as_str(), "completed") {
        PlanStatus::Completed
    } else {
        return None;
    };
    Some(PlanStep { step: step.clone(), status })
}

proof fn no_steps(values: Seq<JsonView>, i: int)
    requires
        0 <= i < values.len(),
        step_of(values[i]) is None,
    ensures
        steps_of(values) is None,
    decreases values.len(),
{
    if i < values.len() - 1 {
        no_steps(values.drop_last(), i);
    }
}

/// The plan that a JSON value writes.
pub fn plan_from_json(value: &Json) -> (result: Option<ExecutionPlan>)
    ensures
        result.deep_view() == plan_of(value.deep_view()),
{
    let names = vec!["explanation", "plan"];
    assert(names.deep_view() =~= plan_fields());
    let named = json::by_fields(value, &names, 2);
    let fields = match &named {
        Some(named) => named,
        None => value,
    };
    let values = match fields.array_at("plan") {
        Some(values) => values,
        None => {
            return None;
        },
    };
    let ghost all = values.deep_view();
    let mut plan: Vec<PlanStep> = Vec::new();
    let mut i: usize = 0;
    assert(plan.deep_view() =~= Seq::empty());
    while i < values.len()
        invariant
            all == values.deep_view(),
            fields.deep_view() == fields_of(value.deep_view(), plan_fields(), 2),
            fields.deep_view().array_at("plan"@) == Some(all),
            i <= values@.len(),
            steps_of(all.take(i as int)) == Some(plan.deep_view()),
        decreases values@.len() - i,
    {
        proof {
            assert(all.take(i + 1).drop_last() =~= all.take(i as int));
            assert(all.take(i + 1).last() == all[i as int]);
            assert(all[i as int] == values@[i as int].deep_view());
        }
        let ghost before = plan.deep_view();
        match parse_step(&values[i]) {
            Some(step) => {
                let ghost view = step.deep_view();
                plan.push(step);
                assert(plan.deep_view() =~= before.push(view));
            },
            None => {
                proof {
                    no_steps(all, i as int);
                }
                return None;
            },
        }
        i += 1;
    }
    assert(all.take(i as int) =~= all);
    match fields.get("explanation") {
        Some(Json::Text(explanation)) => Some(
            ExecutionPlan { explanation: Some(explanation.clone()), plan },
        ),
        Some(Json::Null) => Some(ExecutionPlan { explanation: None, plan }),
        Some(other) => None,
        None => Some(ExecutionPlan { explanation: None, plan }),
    }
}

/// What is said of a text that writes no plan.
pub open spec fn plan_fault(output: Seq<char>) -> Seq<char> {
    match read_json(output) {
        Some(_) => "decode normalized execution plan"@,
        None => "decode normalized execution plan"@ + ": "@ + json_fault(output),
    }
}

/// The plan that a text writes, or what is wrong with it.
pub fn decode_plan(output: &str) -> (result: Result<ExecutionPlan, String>)
    ensures
        match result {
            Ok(plan) => stored_plan(output@) == Some(plan.deep_view()),
            Err(error) => stored_plan(output@) is None && error@ == plan_fault(output@),
        },
{
    match json::parse_for("decode normalized execution plan", output) {
        Ok(value) => match plan_from_json(&value) {
            Some(plan) => Ok(plan),
            None => Err("decode normalized execution plan".to_owned()),
        },
        Err(error) => Err(error),
    }
}

/// The plan that a text writes.
pub fn parse_plan(output: &str) -> (result: Option<ExecutionPlan>)
    ensures
        result.deep_view() == stored_plan(output@),
{
    match decode_plan(output) {
        Ok(plan) => Some(plan),
        Err(_) => None,
    }
}

// ---------------------------------------------------------------------------
// Laws
// ---------------------------------------------------------------------------

/// A result that was admitted never takes the conversation beyond the context of the
/// model, as long as what is written of it, with its escapes, its image and its
/// difference, is no longer than what was left for it.
pub proof fn budget_law(agent: AgentView, message: MessageView, plan: Option<PlanView>)
    requires
        agent.done < agent.calls.len(),
        admission(agent) is Run,
        message_bytes(message) <= message_bytes(
            empty_result(agent.calls[agent.done as int].id),
        ) + 4 * admission(agent)->available,
    ensures
        after_result(agent, message, plan).used <= agent.max_tokens,
{
    let call = agent.calls[agent.done as int];
    let bare = seq![empty_result(call.id)];
    let full = seq![message];
    let available = available_for(agent.used, agent.max_tokens, call);
    reveal_with_fuel(total_bytes, 2);
    assert(bare.drop_last() =~= Seq::<MessageView>::empty());
    assert(full.drop_last() =~= Seq::<MessageView>::empty());
    assert(total_bytes(bare) == message_bytes(empty_result(call.id)));
    assert(total_bytes(full) == message_bytes(message));
    assert(available > 0);
    assert(agent.used + overhead(call) + available == agent.max_tokens);
    assert(tokens_of(bare) == (total_bytes(bare) + 3) / 4 + 4);
    assert(tokens_of(full) == (total_bytes(full) + 3) / 4 + 4);
    assert(overhead(call) < u64::MAX);
    assert(overhead(call) == tokens_of(bare));
    assert((total_bytes(full) + 3) / 4 <= (total_bytes(bare) + 3) / 4 + available);
}

/// A result that is cut to its share is no longer than what was left for it, where
/// nothing in it has to be escaped.
pub proof fn plain_result_law(agent: AgentView, content: Seq<char>, plan: Option<PlanView>)
    requires
        agent.done < agent.calls.len(),
        admission(agent) is Run,
        encode_utf8(content).len() <= token_bytes(output_share(admission(agent)->available)),
        ({
            let id = agent.calls[agent.done as int].id;
            message_bytes(
                MessageView::Tool { call_id: id, content, image: None, diff: None },
            ) <= message_bytes(empty_result(id)) + encode_utf8(content).len()
        }),
    ensures
        after_result(
            agent,
            MessageView::Tool {
                call_id: agent.calls[agent.done as int].id,
                content,
                image: None,
                diff: None,
            },
            plan,
        ).used <= agent.max_tokens,
{
    budget_law(
        agent,
        MessageView::Tool {
            call_id: agent.calls[agent.done as int].id,
            content,
            image: None,
            diff: None,
        },
        plan,
    );
}

/// A turn makes room at most once, and never where it began the conversation: a
/// second lack of room ends it.
pub proof fn compaction_law(agent: AgentView, summary: Seq<char>)
    requires
        agent.done < agent.calls.len(),
        admission(agent) is Summarize,
    ensures
        agent.persist_from > 0,
        !(admission(after_summary(agent, summary)) is Summarize),
        after_summary(agent, summary).messages.skip(1) == agent.messages.skip(
            agent.persist_from as int,
        ),
{
    assert(after_summary(agent, summary).messages.skip(1) =~= agent.messages.skip(
        agent.persist_from as int,
    ));
}

/// What the user sends during a turn is part of what the turn makes, behind what it made
/// before, and the calls of the turn and their results stay as they are.
pub proof fn steer_law(agent: AgentView, steers: Seq<MessageView>)
    requires
        agent.persist_from <= agent.messages.len(),
    ensures
        ({
            let steered = after_steers(agent, steers);
            &&& steered.messages.take(agent.messages.len() as int) == agent.messages
            &&& steered.messages.skip(agent.persist_from as int) == agent.messages.skip(
                agent.persist_from as int,
            ) + steers
            &&& steered.calls == agent.calls
            &&& steered.done == agent.done
        }),
{
    let steered = after_steers(agent, steers);
    assert(steered.messages.take(agent.messages.len() as int) =~= agent.messages);
    assert(steered.messages.skip(agent.persist_from as int) =~= agent.messages.skip(
        agent.persist_from as int,
    ) + steers);
}

} // verus!
