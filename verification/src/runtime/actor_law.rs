//! What holds of a session that works: what it takes, what it keeps of a turn, what it puts
//! together from an answer, and what it tells.
use super::actor::{
    compaction_message, has_marker, is_command, meta_after_turn, steer_message, steers,
    turn_messages, user_message, ActorView, Command, PromptView, TurnResultView,
};
use super::announce::{
    tells_context, tells_error, tells_history, tells_name, tells_notice, tells_plan, tells_project,
    tells_settings, tells_usage, unsaved_error,
};
use super::collect::{
    calls_of, empty_draft, extended, first_fault, output_of, padded, DraftView,
};
use super::context::{is_marker, marks_compaction};
use super::event::Event;
use super::message::{ImageView, MessageView};
use crate::config::active;
use crate::hub::catalog::{is_foreign, is_inside};
use crate::json::{json_fault, read_json};
use crate::layers::{current_policies, key_index, value_at, with_current_policies, TomlView};
use crate::onboarding::endpoint_fault;
use crate::project::ProjectView;
use crate::protocol::Action;
use crate::provider::Usage;
use crate::session::{shown_name, MetaView, PathPart};
use crate::text::has_prefix;
use crate::tool::PlanView;
use crate::web_url::{is_web, read_url};
use vstd::prelude::*;
use vstd::string::*;

verus! {

// ---------------------------------------------------------------------------
// What is taken
// ---------------------------------------------------------------------------

/// What a person sends keeps its words and its images, whether it starts a turn or steers
/// one.
pub proof fn prompt_kept_law(prompt: PromptView)
    ensures
        user_message(prompt) is User,
        user_message(prompt)->User_content == prompt.content,
        user_message(prompt)->User_images == prompt.images,
        steer_message(prompt) is Steer,
        steer_message(prompt)->Steer_content == prompt.content,
        steer_message(prompt)->Steer_images == prompt.images,
{
}

/// Each prompt that waits becomes one message, in their order.
pub proof fn steers_law(prompts: Seq<PromptView>, i: int)
    ensures
        steers(prompts).len() == prompts.len(),
        0 <= i < prompts.len() ==> steers(prompts)[i] is Steer && steers(prompts)[i]->Steer_content
            == prompts[i].content && steers(prompts)[i]->Steer_images == prompts[i].images,
{
}

/// A request that is taken asks for just what it says.
pub proof fn command_law(action: Action, images: Seq<ImageView>, command: Command)
    requires
        is_command(action, images, command),
    ensures
        action is SendMessage <==> command is Submit,
        action is Cancel <==> command is Cancel,
        action is Approve <==> command is Approve,
        action is SetModel <==> command is SelectModel,
        action is SetReasoning <==> command is SetReasoning,
        action is Compact <==> command is Compact,
        action is SendMessage ==> command->Submit_0.deep_view().content
            == action->SendMessage_content@ && command->Submit_0.deep_view().images == images,
        action is Approve ==> command->Approve_0 == action->decision,
        action is SetModel ==> command->SelectModel_0@ == action->model@,
        action is SetReasoning ==> command->SetReasoning_0 == action->effort,
{
}

// ---------------------------------------------------------------------------
// Turns
// ---------------------------------------------------------------------------

/// A summary is kept as a note with its mark, a line feed and its text.
pub proof fn summary_note_law(summary: Seq<char>)
    ensures
        compaction_message(summary) is System,
        compaction_message(summary)->System_content == "Context compacted\n"@ + summary,
        marks_compaction(compaction_message(summary)),
{
    reveal_strlit("Context compacted\n");
    reveal_strlit("Context compacted");
    reveal_strlit("\n");
    let content = compaction_message(summary)->System_content;
    assert(content =~= "Context compacted\n"@ + summary);
    assert(content.subrange(0, "Context compacted"@.len() as int) =~= "Context compacted"@);
    assert(has_prefix(content, "Context compacted"@));
}

/// What a turn leaves behind is what it completed, behind the note of a summary where one was
/// made.
pub proof fn turn_kept_law(result: TurnResultView)
    ensures
        result.compaction is None ==> turn_messages(result) == result.completed,
        result.compaction is Some ==> turn_messages(result).len() == result.completed.len() + 1
            && turn_messages(result)[0] == compaction_message(result.compaction->0.summary)
            && turn_messages(result).skip(1) == result.completed,
{
    if result.compaction is Some {
        assert(turn_messages(result).skip(1) =~= result.completed);
    }
}

/// A turn gives the session its title and its summary where it made them, and changes nothing
/// else.
pub proof fn meta_kept_law(meta: MetaView, result: TurnResultView)
    ensures
        ({
            let next = meta_after_turn(meta, result);
            &&& result.title is Some ==> next.title == result.title
            &&& result.title is None ==> next.title == meta.title
            &&& result.compaction is Some ==> next.compaction_summary == Some(
                result.compaction->0.summary,
            ) && next.compacted_through == result.compaction->0.through
            &&& result.compaction is None ==> next.compaction_summary == meta.compaction_summary
                && next.compacted_through == meta.compacted_through
            &&& next.name == meta.name
            &&& next.total_tokens == meta.total_tokens
            &&& next.approved_tools == meta.approved_tools
            &&& next.plan == meta.plan
            &&& next.settings == meta.settings
            &&& next.project_root == meta.project_root
        }),
{
}

/// A conversation holds a marker just where one of its parts does.
pub proof fn has_marker_law(a: Seq<MessageView>, b: Seq<MessageView>, message: MessageView)
    ensures
        has_marker(a + b) <==> has_marker(a) || has_marker(b),
        has_marker(seq![message]) <==> is_marker(message),
{
    let all = a + b;
    if has_marker(all) {
        let i = choose|i: int| 0 <= i < all.len() && is_marker(#[trigger] all[i]);
        if i < a.len() {
            assert(is_marker(a[i]));
        } else {
            assert(is_marker(b[i - a.len()]));
        }
    }
    if has_marker(a) {
        let i = choose|i: int| 0 <= i < a.len() && is_marker(#[trigger] a[i]);
        assert(is_marker(all[i]));
    }
    if has_marker(b) {
        let i = choose|i: int| 0 <= i < b.len() && is_marker(#[trigger] b[i]);
        assert(is_marker(all[i + a.len()]));
    }
    if is_marker(message) {
        assert(is_marker(seq![message][0]));
    }
}

// ---------------------------------------------------------------------------
// Answers
// ---------------------------------------------------------------------------

/// A part of a call gives it an id, adds to its name and adds to what it is given.
pub proof fn extended_law(
    draft: DraftView,
    id: Option<Seq<char>>,
    name: Option<Seq<char>>,
    arguments: Seq<char>,
)
    ensures
        ({
            let next = extended(draft, id, name, arguments);
            &&& id is Some ==> next.id == id->0
            &&& id is None ==> next.id == draft.id
            &&& name is Some ==> next.name == draft.name + name->0
            &&& name is None ==> next.name == draft.name
            &&& next.arguments == draft.arguments + arguments
        }),
        empty_draft().id.len() == 0,
        empty_draft().name.len() == 0,
        empty_draft().arguments.len() == 0,
{
}

/// There is room for a call at its place, the calls before it stay, and a place that nothing
/// came for is empty.
pub proof fn padded_law(calls: Seq<DraftView>, index: int, k: int)
    requires
        0 <= index,
    ensures
        padded(calls, index).len() == if calls.len() > index {
            calls.len() as int
        } else {
            index + 1
        },
        0 <= k < calls.len() ==> padded(calls, index)[k] == calls[k],
        calls.len() <= k <= index ==> padded(calls, index)[k] == empty_draft(),
{
}

/// An answer has its calls just where each was given something that can be read; each then
/// has its id, its name and what was read, in their order.
pub proof fn calls_law(drafts: Seq<DraftView>)
    ensures
        calls_of(drafts) is Some <==> forall|k: int|
            0 <= k < drafts.len() ==> read_json((#[trigger] drafts[k]).arguments) is Some,
        calls_of(drafts) is Some ==> {
            let calls = calls_of(drafts)->0;
            &&& calls.len() == drafts.len()
            &&& forall|k: int|
                0 <= k < drafts.len() ==> (#[trigger] calls[k]).id == drafts[k].id && calls[k].name
                    == drafts[k].name && Some(calls[k].arguments) == read_json(drafts[k].arguments)
        },
    decreases drafts.len(),
{
    if drafts.len() > 0 {
        let front = drafts.drop_last();
        calls_law(front);
        assert forall|k: int| 0 <= k < front.len() implies #[trigger] front[k] == drafts[k] by {}
        let n = drafts.len() - 1;
        if forall|k: int| 0 <= k < drafts.len() ==> read_json((#[trigger] drafts[k]).arguments)
            is Some {
            assert(read_json(drafts[n].arguments) is Some);
            assert forall|k: int| 0 <= k < front.len() implies read_json(
                (#[trigger] front[k]).arguments,
            ) is Some by {
                assert(read_json(drafts[k].arguments) is Some);
            }
        }
        if calls_of(drafts) is Some {
            assert forall|k: int| 0 <= k < drafts.len() implies read_json(
                (#[trigger] drafts[k]).arguments,
            ) is Some by {
                if k < n {
                    assert(read_json(front[k].arguments) is Some);
                }
            }
        }
    }
}

/// What is wrong with an answer is what is wrong with the first call that cannot be read.
pub proof fn fault_law(drafts: Seq<DraftView>, i: int)
    requires
        0 <= i < drafts.len(),
        read_json(drafts[i].arguments) is None,
        forall|k: int| 0 <= k < i ==> read_json((#[trigger] drafts[k]).arguments) is Some,
    ensures
        first_fault(drafts) == json_fault(drafts[i].arguments),
    decreases drafts.len(),
{
    let front = drafts.drop_last();
    calls_law(front);
    if i < drafts.len() - 1 {
        assert(front[i] == drafts[i]);
        assert forall|k: int| 0 <= k < i implies read_json((#[trigger] front[k]).arguments)
            is Some by {
            assert(front[k] == drafts[k]);
        }
        fault_law(front, i);
    } else {
        assert forall|k: int| 0 <= k < front.len() implies read_json(
            (#[trigger] front[k]).arguments,
        ) is Some by {
            assert(front[k] == drafts[k]);
        }
    }
}

/// What a model wrote is all that was counted but what it was given.
pub proof fn output_law(usage: Usage)
    ensures
        usage.prompt_tokens <= usage.total_tokens ==> usage.prompt_tokens + output_of(usage)
            == usage.total_tokens,
        usage.prompt_tokens > usage.total_tokens ==> output_of(usage) == 0,
{
}

// ---------------------------------------------------------------------------
// What is told
// ---------------------------------------------------------------------------

/// What is told of a session is what the session is: its messages, its name, its use, its
/// plan, its settings, its context and its project.
pub proof fn told_law(event: Event, actor: ActorView, messages: Seq<MessageView>)
    ensures
        tells_history(event, messages) ==> event is History && event->History_0.deep_view()
            == messages,
        tells_name(event, actor.meta) ==> event is SessionChanged && event->SessionChanged_0@
            == shown_name(actor.meta.title, actor.meta.name),
        tells_usage(event, actor.meta) ==> event is UsageChanged && event->total_tokens
            == actor.meta.total_tokens,
        tells_settings(event, actor) ==> event is SettingsChanged && event->SettingsChanged_model@
            == active(actor.config).name,
        tells_settings(event, actor) && event->reasoning_effort is Some
            ==> event->reasoning_effort == actor.config.reasoning_effort && active(
            actor.config,
        ).reasoning_efforts.contains(event->reasoning_effort->0),
        tells_settings(event, actor) && event->reasoning_effort is None
            && actor.config.reasoning_effort is Some ==> !active(
            actor.config,
        ).reasoning_efforts.contains(actor.config.reasoning_effort->0),
        tells_context(event, actor) ==> event is ContextChanged && event->tokens
            == actor.meta.context_tokens && event->max_tokens == active(
            actor.config,
        ).max_context_tokens,
{
}

/// A plan, a project, a fault and a notice are told as they are, and what could not be saved
/// is named with its reason.
pub proof fn told_text_law(
    event: Event,
    project: ProjectView,
    plan: Option<PlanView>,
    what: Seq<char>,
    text: Seq<char>,
)
    ensures
        tells_project(event, project) ==> event is ProjectChanged
            && event->ProjectChanged_0.deep_view() == project,
        tells_plan(event, plan) ==> event is PlanChanged && event->PlanChanged_0.deep_view()
            == plan,
        tells_error(event, text) ==> event is Error && event->Error_0@ == text,
        tells_notice(event, text) ==> event is Notice && event->Notice_0@ == text,
        unsaved_error(what, text).code == "persistence"@,
        unsaved_error(what, text).message == what + seq![':', ' '] + text,
{
    reveal_strlit(": ");
    assert(": "@ =~= seq![':', ' ']);
}

// ---------------------------------------------------------------------------
// Rules
// ---------------------------------------------------------------------------

/// An address is taken just where it is one of the web, names a host, and neither asks nor
/// points inside.
pub proof fn endpoint_rule_law(endpoint: Seq<char>)
    ensures
        endpoint_fault(endpoint) is None <==> {
            &&& read_url(endpoint) is Some
            &&& is_web(read_url(endpoint)->0)
            &&& read_url(endpoint)->0.host is Some
            &&& !read_url(endpoint)->0.has_query
            &&& !read_url(endpoint)->0.has_fragment
        },
{
}

/// A session is foreign just where it belongs to another project.
pub proof fn foreign_law(root: Seq<char>, project: Seq<char>)
    ensures
        !is_foreign(None, project),
        is_foreign(Some(root), project) <==> root != project,
{
}

/// A path stays inside where it is not absolute and no part of it leads elsewhere.
pub proof fn inside_law(absolute: bool, a: Seq<PathPart>, b: Seq<PathPart>)
    ensures
        is_inside(true, a) == false,
        is_inside(absolute, a + b) <==> is_inside(absolute, a) && is_inside(absolute, b),
        is_inside(false, Seq::empty()),
        forall|part: PathPart| part != PathPart::Normal ==> !is_inside(false, #[trigger] seq![part]),
{
    let all = a + b;
    if is_inside(absolute, all) {
        assert forall|i: int| 0 <= i < a.len() implies #[trigger] a[i] == PathPart::Normal by {
            assert(all[i] == a[i]);
        }
        assert forall|i: int| 0 <= i < b.len() implies #[trigger] b[i] == PathPart::Normal by {
            assert(all[i + a.len()] == b[i]);
        }
    }
    assert forall|part: PathPart| part != PathPart::Normal implies !is_inside(
        false,
        #[trigger] seq![part],
    ) by {
        assert(seq![part][0] == part);
    }
}

/// Only the policies of a file are renamed: all its other settings stay.
pub proof fn policies_place_law(entries: Seq<(Seq<char>, TomlView)>, i: int)
    requires
        0 <= i < entries.len(),
    ensures
        with_current_policies(TomlView::Table(entries)) is Table,
        ({
            let next = with_current_policies(TomlView::Table(entries))->Table_0;
            &&& next.len() == entries.len()
            &&& entries[i].0 != "tools"@ ==> next[i] == entries[i]
            &&& next[i].0 == entries[i].0
            &&& i == key_index(entries, "tools"@, 0) && entries[i].0 == "tools"@
                && entries[i].1 is Table ==> next[i].1 == TomlView::Table(
                current_policies(entries[i].1->Table_0),
            )
        }),
{
    crate::config_law::value_law(entries, "tools"@);
    key_is(entries, "tools"@, 0);
}

proof fn key_is(entries: Seq<(Seq<char>, TomlView)>, key: Seq<char>, from: int)
    requires
        0 <= from <= entries.len(),
    ensures
        from <= key_index(entries, key, from) <= entries.len(),
        key_index(entries, key, from) < entries.len() ==> entries[key_index(entries, key, from)].0
            == key,
    decreases entries.len() - from,
{
    if from < entries.len() && entries[from].0 != key {
        key_is(entries, key, from + 1);
    }
}

} // verus!
