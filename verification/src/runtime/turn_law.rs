//! What holds of a turn: what it asks the model, what it keeps of the replies, and what it
//! refuses.
use super::actor::{
    changed, finished, interrupted, kept_settings, refusal, steers, user_message, ActorView, Change,
    PendingView, PromptView, TurnResultView,
};
use super::agent::{
    admission, after_response, after_result, after_steers, after_summary, output_share, plan_of,
    result_message, result_text, status_of, step_of, steps_of, Admission, AgentView, ResponseView,
};
use super::budget::{empty_result, tokens_of};
use super::context::status_name;
use super::message::{ImageView, MessageView, ToolCallView};
use super::turn::{
    delay, first_user, head, is_transient, last_answer, last_line, summary_length, summary_of,
    title_excerpt, title_words,
};
use super::ReasoningEffort;
use crate::config::{active, ConfigView};
use crate::hub::frames::{plan_json, step_json};
use crate::json::JsonView;
use crate::json_law::{entries_law, entry_law, one_entry_law};
use crate::protocol::{Action, ErrorView};
use crate::runtime::budget::entry_if;
use crate::text::{has_text, lower, trim, trim_by};
use crate::tool::{PlanStepView, PlanView, ToolResultView};
use vstd::prelude::*;
use vstd::string::*;

verus! {

// ---------------------------------------------------------------------------
// Summaries and titles
// ---------------------------------------------------------------------------

/// A summary is what the model said, or what it thought where it said nothing, without white
/// space around it; there is none just where it did neither.
pub proof fn summary_law(said: Seq<char>, reasoning: Seq<char>)
    ensures
        trim(said).len() > 0 ==> summary_of(said, reasoning) == trim(said),
        trim(said).len() == 0 ==> summary_of(said, reasoning) == trim(reasoning),
        summary_of(said, reasoning).len() == 0 <==> trim(said).len() == 0 && trim(reasoning).len()
            == 0,
{
}

/// A summary takes an eighth of the context, but no less and no more than is useful.
pub proof fn summary_length_law(max_context_tokens: u64)
    ensures
        512 <= summary_length(max_context_tokens) <= 4096,
        4096 <= max_context_tokens <= 32768 ==> 8 * summary_length(max_context_tokens)
            <= max_context_tokens < 8 * summary_length(max_context_tokens) + 8,
        max_context_tokens < 4096 ==> summary_length(max_context_tokens) == 512,
        max_context_tokens > 32768 ==> summary_length(max_context_tokens) == 4096,
{
}

/// The first request of the user is the first message of theirs, and there is none just
/// where they said nothing.
pub proof fn first_user_law(messages: Seq<MessageView>)
    ensures
        match first_user(messages) {
            Some(content) => exists|i: int|
                {
                    &&& 0 <= i < messages.len()
                    &&& (#[trigger] messages[i]) is User
                    &&& messages[i]->User_content == content
                    &&& forall|k: int| 0 <= k < i ==> !((#[trigger] messages[k]) is User)
                },
            None => forall|k: int| 0 <= k < messages.len() ==> !((#[trigger] messages[k]) is User),
        },
    decreases messages.len(),
{
    if messages.len() > 0 {
        if messages[0] is User {
            assert(messages[0]->User_content == first_user(messages)->0);
        } else {
            let rest = messages.skip(1);
            first_user_law(rest);
            match first_user(messages) {
                Some(content) => {
                    let i = choose|i: int|
                        {
                            &&& 0 <= i < rest.len()
                            &&& (#[trigger] rest[i]) is User
                            &&& rest[i]->User_content == content
                            &&& forall|k: int| 0 <= k < i ==> !((#[trigger] rest[k]) is User)
                        };
                    assert(messages[i + 1] == rest[i]);
                    assert forall|k: int| 0 <= k < i + 1 implies !((#[trigger] messages[k]) is User) by {
                        if k > 0 {
                            assert(rest[k - 1] == messages[k]);
                        }
                    }
                },
                None => {
                    assert forall|k: int| 0 <= k < messages.len() implies !((
                    #[trigger] messages[k]) is User) by {
                        if k > 0 {
                            assert(rest[k - 1] == messages[k]);
                        }
                    }
                },
            }
        }
    }
}

/// The last answer is that of the last message of the model.
pub proof fn last_answer_law(messages: Seq<MessageView>, i: int)
    requires
        0 <= i < messages.len(),
        messages[i] is Assistant,
        forall|k: int| i < k < messages.len() ==> !((#[trigger] messages[k]) is Assistant),
    ensures
        last_answer(messages) == messages[i]->Assistant_content,
    decreases messages.len(),
{
    if i < messages.len() - 1 {
        assert(!(messages[messages.len() - 1] is Assistant));
        let rest = messages.drop_last();
        assert forall|k: int| i < k < rest.len() implies !((#[trigger] rest[k]) is Assistant) by {
            assert(rest[k] == messages[k]);
        }
        last_answer_law(rest, i);
    }
}

/// The model is asked for a title by the beginnings of what the user said and of the answer.
pub proof fn excerpt_law(user: Seq<char>, answer: Seq<char>)
    ensures
        user.len() <= 1200 && answer.len() <= 1200 ==> title_excerpt(user, answer) == "User:\n"@
            + user + "\n\nAssistant:\n"@ + answer,
        user.len() >= 1200 && answer.len() >= 1200 ==> title_excerpt(user, answer) == "User:\n"@
            + user.take(1200) + "\n\nAssistant:\n"@ + answer.take(1200),
        head(user, 1200).len() <= 1200,
        user.subrange(0, head(user, 1200).len() as int) == head(user, 1200),
{
    assert(user.subrange(0, head(user, 1200).len() as int) =~= head(user, 1200));
    if user.len() == 1200 {
        assert(user.take(1200) =~= user);
    }
    if answer.len() == 1200 {
        assert(answer.take(1200) =~= answer);
    }
}

/// The words of a title are words of the line, without punctuation around them, in their
/// order and the first ones.
pub proof fn title_words_law(all: Seq<Seq<char>>, n: nat)
    ensures
        title_words(all, n).len() <= n,
        forall|i: int|
            0 <= i < title_words(all, n).len() ==> exists|k: int|
                0 <= k < all.len() && #[trigger] title_words(all, n)[i] == trim_by(
                    #[trigger] all[k],
                    super::turn::punctuation(),
                ),
        all.len() > 0 && n > 0 && trim_by(all[0], super::turn::punctuation()).len() > 0
            ==> title_words(all, n).len() > 0 && title_words(all, n)[0] == trim_by(
            all[0],
            super::turn::punctuation(),
        ) && title_words(all, n).skip(1) == title_words(all.skip(1), (n - 1) as nat),
        title_words(all, n).len() < n ==> forall|k: int|
            0 <= k < all.len() ==> trim_by(#[trigger] all[k], super::turn::punctuation()).len() == 0
                || title_words(all, n).contains(trim_by(all[k], super::turn::punctuation())),
    decreases all.len(),
{
    let cut = super::turn::punctuation();
    if all.len() > 0 && n > 0 {
        let word = trim_by(all[0], cut);
        let rest = all.skip(1);
        let left = if word.len() == 0 {
            n
        } else {
            (n - 1) as nat
        };
        title_words_law(rest, left);
        let told = title_words(all, n);
        let inner = title_words(rest, left);
        let skipped = if word.len() == 0 {
            0int
        } else {
            1
        };
        assert forall|i: int| 0 <= i < told.len() implies exists|k: int|
            0 <= k < all.len() && #[trigger] told[i] == trim_by(#[trigger] all[k], cut) by {
            if word.len() > 0 && i == 0 {
                assert(told[0] == trim_by(all[0], cut));
            } else {
                assert(told[i] == inner[i - skipped]);
                let k = choose|k: int|
                    0 <= k < rest.len() && #[trigger] inner[i - skipped] == trim_by(
                        #[trigger] rest[k],
                        cut,
                    );
                assert(all[k + 1] == rest[k]);
            }
        }
        if word.len() > 0 {
            assert(told.skip(1) =~= inner);
        }
        if told.len() < n {
            assert forall|k: int| 0 <= k < all.len() implies trim_by(#[trigger] all[k], cut).len()
                == 0 || told.contains(trim_by(all[k], cut)) by {
                if k == 0 {
                    if word.len() > 0 {
                        assert(told[0] == word);
                    }
                } else {
                    assert(rest[k - 1] == all[k]);
                    let w = trim_by(all[k], cut);
                    if w.len() > 0 {
                        assert(inner.contains(w));
                        let m = choose|m: int| 0 <= m < inner.len() && inner[m] == w;
                        assert(told[m + skipped] == w);
                    }
                }
            }
        }
    }
}

/// A title is taken from the last line that says anything.
pub proof fn last_line_law(all: Seq<Seq<char>>)
    ensures
        match last_line(all) {
            Some(line) => exists|i: int|
                {
                    &&& 0 <= i < all.len()
                    &&& trim(#[trigger] all[i]) == line
                    &&& line.len() > 0
                    &&& forall|k: int| i < k < all.len() ==> trim(#[trigger] all[k]).len() == 0
                },
            None => forall|k: int| 0 <= k < all.len() ==> trim(#[trigger] all[k]).len() == 0,
        },
    decreases all.len(),
{
    if all.len() > 0 {
        let n = all.len() - 1;
        let rest = all.drop_last();
        if trim(all[n]).len() > 0 {
            assert(trim(all[n]) == last_line(all)->0);
        } else {
            last_line_law(rest);
            match last_line(all) {
                Some(line) => {
                    let i = choose|i: int|
                        {
                            &&& 0 <= i < rest.len()
                            &&& trim(#[trigger] rest[i]) == line
                            &&& line.len() > 0
                            &&& forall|k: int|
                                i < k < rest.len() ==> trim(#[trigger] rest[k]).len() == 0
                        };
                    assert(trim(all[i]) == line);
                    assert forall|k: int| i < k < all.len() implies trim(#[trigger] all[k]).len()
                        == 0 by {
                        if k < n {
                            assert(rest[k] == all[k]);
                        }
                    }
                },
                None => {
                    assert forall|k: int| 0 <= k < all.len() implies trim(#[trigger] all[k]).len()
                        == 0 by {
                        if k < n {
                            assert(rest[k] == all[k]);
                        }
                    }
                },
            }
        }
    }
}

// ---------------------------------------------------------------------------
// Attempts
// ---------------------------------------------------------------------------

/// A request is tried again just where the failure may pass, in capital letters or small
/// ones, and each time after a longer while.
pub proof fn attempt_law(error: Seq<char>, attempt: usize)
    ensures
        is_transient(lower(error)) == is_transient(error),
        is_transient(error) <==> {
            let e = lower(error);
            has_text(e, "send completion request"@) || has_text(e, "connection"@) || has_text(
                e,
                "timed out"@,
            ) || has_text(e, "timeout"@) || has_text(e, "server returned 408"@) || has_text(
                e,
                "server returned 429"@,
            ) || has_text(e, "server returned 500"@) || has_text(e, "server returned 502"@)
                || has_text(e, "server returned 503"@) || has_text(e, "server returned 504"@)
        },
        delay(0) == 2,
        delay(1) == 5,
        delay(2) == 10,
        attempt >= 3 ==> delay(attempt) == 30,
{
    crate::text_law::lower_law(error);
}

// ---------------------------------------------------------------------------
// The agent
// ---------------------------------------------------------------------------

/// What the model replied is kept whole, behind what was said before: its text, its
/// thoughts, its items and its calls, as many as a message may have.
pub proof fn reply_law(agent: AgentView, response: ResponseView)
    ensures
        ({
            let next = after_response(agent, response);
            let said = next.messages.last();
            &&& next.messages.len() == agent.messages.len() + 1
            &&& next.messages.drop_last() == agent.messages
            &&& said is Assistant
            &&& said->Assistant_content == response.text
            &&& said->Assistant_reasoning == response.reasoning
            &&& said->Assistant_model == agent.model
            &&& said->Assistant_response_items == response.items
            &&& said->Assistant_tool_calls == next.calls
            &&& next.calls.len() <= 64
            &&& next.calls.len() == response.calls.len() || (next.calls.len() == 64
                && response.calls.len() > 64)
            &&& forall|i: int|
                0 <= i < next.calls.len() ==> #[trigger] next.calls[i] == response.calls[i]
            &&& next.done == 0
            &&& response.total_tokens is Some ==> next.used == response.total_tokens->0
            &&& next.plan == agent.plan
            &&& next.prompt == agent.prompt
            &&& next.persist_from == agent.persist_from
        }),
{
    let next = after_response(agent, response);
    assert(next.messages.drop_last() =~= agent.messages);
}

/// The result of a tool is kept behind what was said before, under the id of its call: what
/// it put out, or what went wrong, and the image and the difference that it showed.
pub proof fn tool_reply_law(
    agent: AgentView,
    call: ToolCallView,
    result: Result<ToolResultView, Seq<char>>,
    content: Seq<char>,
    plan: Option<PlanView>,
)
    requires
        agent.done < usize::MAX,
    ensures
        ({
            let message = result_message(call, result, content);
            let next = after_result(agent, message, plan);
            &&& message is Tool
            &&& message->Tool_call_id == call.id
            &&& message->Tool_content == content
            &&& match result {
                Ok(told) => message->Tool_image == told.image && message->Tool_diff == told.diff
                    && result_text(result) == told.output,
                Err(error) => message->Tool_image is None && message->Tool_diff is None
                    && result_text(result) == "Error: "@ + error,
            }
            &&& next.messages == agent.messages.push(message)
            &&& next.done == agent.done + 1
            &&& next.calls == agent.calls
            &&& next.plan == plan
            &&& agent.used + tokens_of(seq![message]) <= u64::MAX ==> next.used == agent.used
                + tokens_of(seq![message])
        }),
{
}

/// A summary takes the place of what was said before the turn, and of nothing else.
pub proof fn room_made_law(agent: AgentView, summary: Seq<char>)
    requires
        agent.persist_from <= agent.messages.len(),
    ensures
        ({
            let next = after_summary(agent, summary);
            &&& next.messages.len() == agent.messages.len() - agent.persist_from + 1
            &&& next.messages[0] == MessageView::System {
                content: "Conversation summary for continuation:\n"@ + summary,
            }
            &&& next.messages.skip(1) == agent.messages.skip(agent.persist_from as int)
            &&& next.compacted
            &&& next.persist_from == 1
            &&& next.compaction is Some
            &&& next.compaction->0.summary == summary
            &&& next.compaction->0.through == agent.user_index
            &&& next.calls == agent.calls
            &&& next.done == agent.done
            &&& next.plan == agent.plan
        }),
{
    let next = after_summary(agent, summary);
    assert(next.messages.skip(1) =~= agent.messages.skip(agent.persist_from as int));
}

/// What the user says during a turn comes behind what was said before, and changes nothing
/// else.
pub proof fn steered_law(agent: AgentView, steers: Seq<MessageView>)
    ensures
        after_steers(agent, steers).messages == agent.messages + steers,
        after_steers(agent, steers).calls == agent.calls,
        after_steers(agent, steers).used == agent.used,
{
}

/// A tool runs where there is room for its result behind what the message itself takes; else
/// the conversation before the turn is summarized, once, and where that cannot help nothing
/// runs.
pub proof fn admission_law(agent: AgentView)
    requires
        agent.done < agent.calls.len(),
    ensures
        ({
            let call = agent.calls[agent.done as int];
            let own = tokens_of(seq![empty_result(call.id)]);
            let fits = agent.used + own + 32 <= agent.max_tokens;
            &&& fits ==> admission(agent) == (Admission::Run {
                available: (agent.max_tokens - agent.used - own) as u64,
            })
            &&& !fits && (agent.persist_from == 0 || agent.compacted) ==> admission(agent)
                == Admission::Exhausted
            &&& !fits && agent.persist_from > 0 && !agent.compacted ==> admission(agent) == (
            Admission::Summarize { before: agent.persist_from })
        }),
{
}

/// A result may take a fifth of what is left, but at least so much that it says something,
/// and never more than there is.
pub proof fn share_law(available: u64)
    ensures
        output_share(available) <= available,
        available >= 160 ==> 5 * output_share(available) <= available < 5 * output_share(available)
            + 5,
        32 <= available < 160 ==> output_share(available) == 32,
        available < 32 ==> output_share(available) == available,
{
}

// ---------------------------------------------------------------------------
// Plans that are stored
// ---------------------------------------------------------------------------

proof fn step_read(step: PlanStepView)
    ensures
        step_of(step_json(step)) == Some(step),
{
    reveal_strlit("step");
    reveal_strlit("status");
    assert("step"@.len() != "status"@.len());
    reveal_strlit("pending");
    reveal_strlit("in_progress");
    reveal_strlit("completed");
    assert("pending"@.len() != "in_progress"@.len());
    assert("pending"@.len() != "completed"@.len());
    assert("in_progress"@.len() != "completed"@.len());
    let e = step_json(step)->Object_0;
    assert(e[0].0 == "step"@);
    assert(e[1].0 == "status"@);
    entry_law(e, 0);
    assert forall|k: int| 0 <= k < 1 implies (#[trigger] e[k]).0 != e[1].0 by {
        assert(k == 0);
    }
    entry_law(e, 1);
    assert(step_json(step).text_at("step"@) == Some(step.step));
    assert(step_json(step).text_at("status"@) == Some(status_name(step.status)));
    assert(status_of(status_name(step.status)) == Some(step.status));
}

proof fn steps_read(steps: Seq<PlanStepView>)
    ensures
        steps_of(steps.map_values(|s: PlanStepView| step_json(s))) == Some(steps),
    decreases steps.len(),
{
    let values = steps.map_values(|s: PlanStepView| step_json(s));
    if steps.len() > 0 {
        let rest = steps.drop_last();
        steps_read(rest);
        step_read(steps.last());
        assert(values.drop_last() =~= rest.map_values(|s: PlanStepView| step_json(s)));
        assert(values.last() == step_json(steps.last()));
        assert(rest.push(steps.last()) =~= steps);
    } else {
        assert(values.len() == 0);
        assert(steps =~= Seq::empty());
    }
}

/// A plan as clients are told of it reads as that plan: each step, with how it stands, in
/// its place, and the explanation.
pub proof fn plan_read_law(plan: PlanView)
    ensures
        plan_of(plan_json(Some(plan))) == Some(plan),
{
    reveal_strlit("explanation");
    reveal_strlit("plan");
    assert("explanation"@.len() != "plan"@.len());
    let values = plan.plan.map_values(|s: PlanStepView| step_json(s));
    steps_read(plan.plan);
    let p0 = entry_if(
        plan.explanation is Some,
        "explanation"@,
        JsonView::Text(plan.explanation->0),
    );
    let p1 = seq![("plan"@, JsonView::Array(values))];
    let c0 = p0;
    let c1 = c0 + p1;
    entries_law(c0, p1, "explanation"@);
    one_entry_law("explanation"@, JsonView::Text(plan.explanation->0), "explanation"@);
    one_entry_law("plan"@, JsonView::Array(values), "explanation"@);
    entries_law(c0, p1, "plan"@);
    one_entry_law("explanation"@, JsonView::Text(plan.explanation->0), "plan"@);
    one_entry_law("plan"@, JsonView::Array(values), "plan"@);
    assert(plan_json(Some(plan)) == JsonView::Object(c1));
}

// ---------------------------------------------------------------------------
// The session
// ---------------------------------------------------------------------------

/// A message is taken just where no compaction runs, it says or shows anything, and the model
/// can see what it shows.
pub proof fn message_rule_law(
    action: Action,
    images: Seq<ImageView>,
    operation: Option<Seq<char>>,
    compacting: bool,
    approval: Option<PendingView>,
    revision: u64,
    config: ConfigView,
)
    requires
        action is SendMessage,
    ensures
        refusal(action, images, operation, compacting, approval, revision, config) is None <==> {
            &&& !compacting
            &&& trim(action->SendMessage_content@).len() > 0 || images.len() > 0
            &&& images.len() > 0 ==> active(config).vision
        },
        compacting ==> refusal(action, images, operation, compacting, approval, revision, config)
            == Some(
            ErrorView { code: "busy"@, message: "manual compaction is running"@ },
        ),
{
}

/// What is asked of a turn or of an approval is taken just where it speaks of the one that
/// is there, and settings are changed just where nothing runs and nobody changed them
/// meanwhile.
pub proof fn action_rule_law(
    action: Action,
    images: Seq<ImageView>,
    operation: Option<Seq<char>>,
    compacting: bool,
    approval: Option<PendingView>,
    revision: u64,
    config: ConfigView,
)
    ensures
        ({
            let taken = refusal(action, images, operation, compacting, approval, revision, config)
                is None;
            &&& action is Cancel ==> (taken <==> operation == Some(action->Cancel_turn_id@))
            &&& action is Approve ==> (taken <==> operation == Some(action->Approve_turn_id@)
                && approval is Some && approval->0.id == action->Approve_approval_id@)
            &&& action is SetModel ==> (taken <==> operation is None && action->SetModel_revision
                == revision)
            &&& action is SetReasoning ==> (taken <==> operation is None
                && action->SetReasoning_revision == revision && (
            action->SetReasoning_effort is Some ==> active(config).reasoning_efforts.contains(
                action->SetReasoning_effort->0,
            )))
            &&& action is Compact ==> (taken <==> operation is None)
        }),
{
}

/// A prompt says what the user wrote and shows what they showed, at once or during a turn.
pub proof fn prompt_law(prompts: Seq<PromptView>, i: int)
    requires
        0 <= i < prompts.len(),
    ensures
        user_message(prompts[i]) == (MessageView::User {
            content: prompts[i].content,
            images: prompts[i].images,
        }),
        steers(prompts).len() == prompts.len(),
        steers(prompts)[i] is Steer,
        steers(prompts)[i]->Steer_content == prompts[i].content,
        steers(prompts)[i]->Steer_images == prompts[i].images,
{
}

/// A turn that is stopped keeps what it made and what the user said meanwhile, behind the
/// conversation, and ends with a note.
pub proof fn stopped_law(actor: ActorView, progress: Seq<MessageView>, note: Seq<char>)
    ensures
        ({
            let next = interrupted(actor, progress, note);
            let n = actor.messages.len() as int;
            let p = progress.len() as int;
            let q = actor.prompts.len() as int;
            &&& next.messages.len() == n + p + q + 1
            &&& next.messages.take(n) == actor.messages
            &&& next.messages.subrange(n, n + p) == progress
            &&& forall|i: int|
                0 <= i < q ==> (#[trigger] next.messages[n + p + i]) is Steer && next.messages[n + p
                    + i]->Steer_content == actor.prompts[i].content
                    && next.messages[n + p + i]->Steer_images == actor.prompts[i].images
            &&& next.messages.last() == (MessageView::System { content: note })
            &&& next.prompts.len() == 0
            &&& next.generation is None
            &&& next.meta == actor.meta
        }),
{
    let next = interrupted(actor, progress, note);
    let n = actor.messages.len() as int;
    let p = progress.len() as int;
    let q = actor.prompts.len() as int;
    assert(next.messages.take(n) =~= actor.messages);
    assert(next.messages.subrange(n, n + p) =~= progress);
    assert forall|i: int| 0 <= i < q implies (#[trigger] next.messages[n + p + i]) is Steer
        && next.messages[n + p + i]->Steer_content == actor.prompts[i].content
            && next.messages[n + p
        + i]->Steer_images == actor.prompts[i].images by {
        assert(next.messages[n + p + i] == steers(actor.prompts)[i]);
    }
}

/// A turn that is done puts what it made in the place of its request, keeps the summary that
/// it wrote, and takes over the title that it found.
pub proof fn turn_done_law(actor: ActorView, result: TurnResultView)
    requires
        actor.messages.len() > 0,
    ensures
        ({
            let next = finished(actor, result);
            let n = actor.messages.len() - 1;
            let skipped = if result.compaction is Some {
                1int
            } else {
                0
            };
            &&& next.messages.take(n) == actor.messages.take(n)
            &&& next.messages.len() == n + skipped + result.completed.len()
            &&& next.messages.skip(n + skipped) == result.completed
            &&& result.compaction is Some ==> {
                &&& next.messages[n] is System
                &&& next.messages[n]->System_content == super::COMPACTION_MARKER@ + "\n"@
                    + result.compaction->0.summary
                &&& next.meta.compaction_summary == Some(result.compaction->0.summary)
                &&& next.meta.compacted_through == result.compaction->0.through
            }
            &&& result.compaction is None ==> next.meta.compaction_summary
                == actor.meta.compaction_summary && next.meta.compacted_through
                == actor.meta.compacted_through
            &&& result.title is Some ==> next.meta.title == result.title
            &&& result.title is None ==> next.meta.title == actor.meta.title
            &&& next.meta.name == actor.meta.name
            &&& next.meta.total_tokens == actor.meta.total_tokens
            &&& next.meta.plan == actor.meta.plan
            &&& next.prompts == actor.prompts
            &&& next.generation is None
        }),
{
    let next = finished(actor, result);
    let n = actor.messages.len() - 1;
    let skipped = if result.compaction is Some {
        1int
    } else {
        0
    };
    assert(next.messages.take(n) =~= actor.messages.take(n));
    assert(next.messages.skip(n + skipped) =~= result.completed);
}

/// What a session keeps of its settings is the model in use and an effort that this model
/// takes.
pub proof fn settings_law(config: ConfigView, effort: Option<ReasoningEffort>)
    ensures
        kept_settings(config).model == active(config).name,
        kept_settings(config).reasoning_effort is Some ==> kept_settings(config).reasoning_effort
            == config.reasoning_effort && active(config).reasoning_efforts.contains(
            config.reasoning_effort->0,
        ),
        config.reasoning_effort is Some && active(config).reasoning_efforts.contains(
            config.reasoning_effort->0,
        ) ==> kept_settings(config).reasoning_effort == config.reasoning_effort,
        changed(config, Change::Reasoning(effort)) == (ConfigView {
            reasoning_effort: effort,
            ..config
        }),
{
}

} // verus!
