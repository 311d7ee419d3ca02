//! What holds of replies as they come in: that what the model says is what is heard.
use super::openai::{
    call_delta, call_deltas, call_fields, choice_deltas, choice_fields, choices_read, chunk_choices,
    chunk_deltas, chunk_fields, delta_fields, function_fields, usage_fields,
};
use super::responses::{
    after_done, after_event, at_two, key_of, missing, text_or, with_index, DecoderView,
};
use super::{DeltaView, Usage};
use crate::json::{fields_of, JsonView};
use crate::text::has_prefix;
use vstd::prelude::*;
use vstd::string::*;

verus! {

// ---------------------------------------------------------------------------
// The Responses protocol
// ---------------------------------------------------------------------------

proof fn kinds_differ()
    ensures
        "response.output_text.delta"@ != "response.refusal.delta"@,
        "response.output_text.delta"@ != "response.reasoning_summary_text.delta"@,
        "response.output_text.delta"@ != "response.reasoning_text.delta"@,
        "response.output_text.delta"@ != "response.output_item.added"@,
        "response.output_text.delta"@ != "response.function_call_arguments.delta"@,
        "response.output_text.delta"@ != "response.output_item.done"@,
        "response.output_text.delta"@ != "response.completed"@,
        "response.output_text.delta"@ != "response.incomplete"@,
        "response.output_text.delta"@ != "response.failed"@,
        "response.output_text.delta"@ != "error"@,
        "response.refusal.delta"@ != "response.reasoning_summary_text.delta"@,
        "response.refusal.delta"@ != "response.reasoning_text.delta"@,
        "response.refusal.delta"@ != "response.output_item.added"@,
        "response.refusal.delta"@ != "response.function_call_arguments.delta"@,
        "response.refusal.delta"@ != "response.output_item.done"@,
        "response.refusal.delta"@ != "response.completed"@,
        "response.refusal.delta"@ != "response.incomplete"@,
        "response.refusal.delta"@ != "response.failed"@,
        "response.refusal.delta"@ != "error"@,
        "response.reasoning_summary_text.delta"@ != "response.reasoning_text.delta"@,
        "response.reasoning_summary_text.delta"@ != "response.output_item.added"@,
        "response.reasoning_summary_text.delta"@ != "response.function_call_arguments.delta"@,
        "response.reasoning_summary_text.delta"@ != "response.output_item.done"@,
        "response.reasoning_summary_text.delta"@ != "response.completed"@,
        "response.reasoning_summary_text.delta"@ != "response.incomplete"@,
        "response.reasoning_summary_text.delta"@ != "response.failed"@,
        "response.reasoning_summary_text.delta"@ != "error"@,
        "response.reasoning_text.delta"@ != "response.output_item.added"@,
        "response.reasoning_text.delta"@ != "response.function_call_arguments.delta"@,
        "response.reasoning_text.delta"@ != "response.output_item.done"@,
        "response.reasoning_text.delta"@ != "response.completed"@,
        "response.reasoning_text.delta"@ != "response.incomplete"@,
        "response.reasoning_text.delta"@ != "response.failed"@,
        "response.reasoning_text.delta"@ != "error"@,
        "response.output_item.added"@ != "response.function_call_arguments.delta"@,
        "response.output_item.added"@ != "response.output_item.done"@,
        "response.output_item.added"@ != "response.completed"@,
        "response.output_item.added"@ != "response.incomplete"@,
        "response.output_item.added"@ != "response.failed"@,
        "response.output_item.added"@ != "error"@,
        "response.function_call_arguments.delta"@ != "response.output_item.done"@,
        "response.function_call_arguments.delta"@ != "response.completed"@,
        "response.function_call_arguments.delta"@ != "response.incomplete"@,
        "response.function_call_arguments.delta"@ != "response.failed"@,
        "response.function_call_arguments.delta"@ != "error"@,
        "response.output_item.done"@ != "response.completed"@,
        "response.output_item.done"@ != "response.incomplete"@,
        "response.output_item.done"@ != "response.failed"@,
        "response.output_item.done"@ != "error"@,
        "response.completed"@ != "response.incomplete"@,
        "response.completed"@ != "response.failed"@,
        "response.completed"@ != "error"@,
        "response.incomplete"@ != "response.failed"@,
        "response.incomplete"@ != "error"@,
        "response.failed"@ != "error"@,
{
    reveal_strlit("response.output_text.delta");
    reveal_strlit("response.refusal.delta");
    reveal_strlit("response.reasoning_summary_text.delta");
    reveal_strlit("response.reasoning_text.delta");
    reveal_strlit("response.output_item.added");
    reveal_strlit("response.function_call_arguments.delta");
    reveal_strlit("response.output_item.done");
    reveal_strlit("response.completed");
    reveal_strlit("response.incomplete");
    reveal_strlit("response.failed");
    reveal_strlit("error");
    assert("response.output_text.delta"@.len() != "response.refusal.delta"@.len());
    assert("response.output_text.delta"@.len() != "response.reasoning_summary_text.delta"@.len());
    assert("response.output_text.delta"@.len() != "response.reasoning_text.delta"@.len());
    assert("response.output_text.delta"@[16] != "response.output_item.added"@[16]);
    assert("response.output_text.delta"@.len() != "response.function_call_arguments.delta"@.len());
    assert("response.output_text.delta"@.len() != "response.output_item.done"@.len());
    assert("response.output_text.delta"@.len() != "response.completed"@.len());
    assert("response.output_text.delta"@.len() != "response.incomplete"@.len());
    assert("response.output_text.delta"@.len() != "response.failed"@.len());
    assert("response.output_text.delta"@.len() != "error"@.len());
    assert("response.refusal.delta"@.len() != "response.reasoning_summary_text.delta"@.len());
    assert("response.refusal.delta"@.len() != "response.reasoning_text.delta"@.len());
    assert("response.refusal.delta"@.len() != "response.output_item.added"@.len());
    assert("response.refusal.delta"@.len() != "response.function_call_arguments.delta"@.len());
    assert("response.refusal.delta"@.len() != "response.output_item.done"@.len());
    assert("response.refusal.delta"@.len() != "response.completed"@.len());
    assert("response.refusal.delta"@.len() != "response.incomplete"@.len());
    assert("response.refusal.delta"@.len() != "response.failed"@.len());
    assert("response.refusal.delta"@.len() != "error"@.len());
    assert("response.reasoning_summary_text.delta"@.len() != "response.reasoning_text.delta"@.len());
    assert("response.reasoning_summary_text.delta"@.len() != "response.output_item.added"@.len());
    assert("response.reasoning_summary_text.delta"@.len() != "response.function_call_arguments.delta"@.len());
    assert("response.reasoning_summary_text.delta"@.len() != "response.output_item.done"@.len());
    assert("response.reasoning_summary_text.delta"@.len() != "response.completed"@.len());
    assert("response.reasoning_summary_text.delta"@.len() != "response.incomplete"@.len());
    assert("response.reasoning_summary_text.delta"@.len() != "response.failed"@.len());
    assert("response.reasoning_summary_text.delta"@.len() != "error"@.len());
    assert("response.reasoning_text.delta"@.len() != "response.output_item.added"@.len());
    assert("response.reasoning_text.delta"@.len() != "response.function_call_arguments.delta"@.len());
    assert("response.reasoning_text.delta"@.len() != "response.output_item.done"@.len());
    assert("response.reasoning_text.delta"@.len() != "response.completed"@.len());
    assert("response.reasoning_text.delta"@.len() != "response.incomplete"@.len());
    assert("response.reasoning_text.delta"@.len() != "response.failed"@.len());
    assert("response.reasoning_text.delta"@.len() != "error"@.len());
    assert("response.output_item.added"@.len() != "response.function_call_arguments.delta"@.len());
    assert("response.output_item.added"@.len() != "response.output_item.done"@.len());
    assert("response.output_item.added"@.len() != "response.completed"@.len());
    assert("response.output_item.added"@.len() != "response.incomplete"@.len());
    assert("response.output_item.added"@.len() != "response.failed"@.len());
    assert("response.output_item.added"@.len() != "error"@.len());
    assert("response.function_call_arguments.delta"@.len() != "response.output_item.done"@.len());
    assert("response.function_call_arguments.delta"@.len() != "response.completed"@.len());
    assert("response.function_call_arguments.delta"@.len() != "response.incomplete"@.len());
    assert("response.function_call_arguments.delta"@.len() != "response.failed"@.len());
    assert("response.function_call_arguments.delta"@.len() != "error"@.len());
    assert("response.output_item.done"@.len() != "response.completed"@.len());
    assert("response.output_item.done"@.len() != "response.incomplete"@.len());
    assert("response.output_item.done"@.len() != "response.failed"@.len());
    assert("response.output_item.done"@.len() != "error"@.len());
    assert("response.completed"@.len() != "response.incomplete"@.len());
    assert("response.completed"@.len() != "response.failed"@.len());
    assert("response.completed"@.len() != "error"@.len());
    assert("response.incomplete"@.len() != "response.failed"@.len());
    assert("response.incomplete"@.len() != "error"@.len());
    assert("response.failed"@.len() != "error"@.len());
}

/// A piece of the answer, a refusal too, is heard as text, and a piece of a thought as a
/// thought; nothing else comes of it. An empty piece is none.
pub proof fn text_law(state: DecoderView, event: JsonView, delta: Seq<char>)
    requires
        event.text_at("delta"@) == Some(delta),
    ensures
        event.text_at("type"@) == Some("response.output_text.delta"@) || event.text_at("type"@)
            == Some("response.refusal.delta"@) ==> after_event(state, event) == (
            state,
            Ok::<Seq<DeltaView>, Seq<char>>(
                if delta.len() > 0 {
                    seq![DeltaView::Text(delta)]
                } else {
                    Seq::empty()
                },
            ),
        ),
        event.text_at("type"@) == Some("response.reasoning_summary_text.delta"@) || event.text_at(
            "type"@,
        ) == Some("response.reasoning_text.delta"@) ==> after_event(state, event) == (
            state,
            Ok::<Seq<DeltaView>, Seq<char>>(
                if delta.len() > 0 {
                    seq![DeltaView::Reasoning(delta)]
                } else {
                    Seq::empty()
                },
            ),
        ),
{
    kinds_differ();
}

/// A call is announced with its id, its name and the arguments so far, and once announced
/// each piece of its arguments is heard as it comes, at the same place.
pub proof fn call_law(state: DecoderView, event: JsonView)
    requires
        state.next_tool < usize::MAX,
    ensures
        event.text_at("type"@) == Some("response.output_item.added"@) && event.get("item"@) is Some
            && event.get("item"@)->0.text_at("type"@) == Some("function_call"@) ==> {
            let item = event.get("item"@)->0;
            let key = key_of(item, event);
            let (next, heard) = after_event(state, event);
            &&& heard is Ok
            &&& heard->Ok_0.len() == 1
            &&& heard->Ok_0[0] matches DeltaView::ToolCall { index, id, name, arguments } && id
                == item.text_at("call_id"@) && name == item.text_at("name"@) && arguments
                == match item.text_at("arguments"@) {
                Some(t) => t,
                None => Seq::empty(),
            } && next.tool_indexes.contains_key(key) && next.tool_indexes[key] == index
                && next.arguments.contains_key(key) && next.arguments[key] == arguments
                && next.announced.contains(key)
        },
        event.text_at("type"@) == Some("response.function_call_arguments.delta"@) && event.text_at(
            "delta"@,
        ) is Some ==> {
            let key = key_of(event, event);
            let (next, heard) = after_event(state, event);
            &&& heard is Ok
            &&& heard->Ok_0.len() == 1
            &&& heard->Ok_0[0] matches DeltaView::ToolCall { index, id, name, arguments } && id
                is None && name is None && Some(arguments) == event.text_at("delta"@)
                && next.tool_indexes.contains_key(key) && next.tool_indexes[key] == index && (
            state.tool_indexes.contains_key(key) ==> state.tool_indexes[key] == index)
                && next.arguments.contains_key(key) && next.arguments[key] == (
            if state.arguments.contains_key(key) {
                state.arguments[key]
            } else {
                Seq::empty()
            }) + arguments
        },
{
    kinds_differ();
}

/// A call that is done is heard whole: what was told of its arguments, with what is told
/// now, is what the item says, where the item goes on from it; and one that was not
/// announced before is announced now. The item itself is kept for the next request.
pub proof fn done_law(state: DecoderView, event: JsonView)
    requires
        state.next_tool < usize::MAX,
        event.text_at("type"@) == Some("response.output_item.done"@),
        event.get("item"@) is Some,
    ensures
        ({
            let item = event.get("item"@)->0;
            let key = key_of(item, event);
            let (next, heard) = after_event(state, event);
            let before = if state.arguments.contains_key(key) {
                state.arguments[key]
            } else {
                Seq::<char>::empty()
            };
            let complete = match item.text_at("arguments"@) {
                Some(t) => t,
                None => Seq::empty(),
            };
            let is_call = item.text_at("type"@) == Some("function_call"@);
            &&& heard is Ok
            &&& 1 <= heard->Ok_0.len() <= 2
            &&& heard->Ok_0.last() == DeltaView::OutputItem(item)
            &&& !is_call ==> heard->Ok_0.len() == 1
            &&& is_call && !state.announced.contains(key) ==> heard->Ok_0.len() == 2
            &&& is_call && heard->Ok_0.len() == 2 ==> {
                heard->Ok_0[0] matches DeltaView::ToolCall { index, id, name, arguments } && (
                has_prefix(complete, before) ==> before + arguments == complete) && (
                !state.announced.contains(key) ==> id == item.text_at("call_id"@) && name
                    == item.text_at("name"@)) && (state.tool_indexes.contains_key(key)
                    ==> state.tool_indexes[key] == index)
            }
            &&& is_call && heard->Ok_0.len() == 1 && has_prefix(complete, before) ==> before
                == complete
        }),
{
    kinds_differ();
    let item = event.get("item"@)->0;
    let key = key_of(item, event);
    let (next, index) = with_index(state, key, event);
    assert(next.arguments == state.arguments);
    assert(next.announced == state.announced);
    let before = if state.arguments.contains_key(key) {
        state.arguments[key]
    } else {
        Seq::<char>::empty()
    };
    let complete = text_or(item, "arguments"@);
    if has_prefix(complete, before) {
        super::responses::complete_arguments_law(complete, before);
        if missing(complete, before).len() == 0 {
            assert(before + missing(complete, before) =~= before);
        }
    }
    let (last, heard) = after_event(state, event);
    assert((last, heard) == {
        let (a, b) = after_done(state, event);
        (a, Ok::<Seq<DeltaView>, Seq<char>>(b))
    });
}

/// The end of a response tells the tokens that it took, and a failure what went wrong.
pub proof fn end_law(state: DecoderView, event: JsonView)
    ensures
        (event.text_at("type"@) == Some("response.completed"@) || event.text_at("type"@) == Some(
            "response.incomplete"@,
        )) && at_two(event, "response"@, "usage"@) is Some ==> {
            let usage = at_two(event, "response"@, "usage"@)->0;
            usage.number_at("input_tokens"@) is Some && usage.number_at("total_tokens"@) is Some
                ==> after_event(state, event) == (
                state,
                Ok::<Seq<DeltaView>, Seq<char>>(
                    seq![
                        DeltaView::Usage(
                            Usage {
                                prompt_tokens: usage.number_at("input_tokens"@)->0,
                                total_tokens: usage.number_at("total_tokens"@)->0,
                            },
                        ),
                    ],
                ),
            )
        },
        event.text_at("type"@) == Some("response.failed"@) || event.text_at("type"@) == Some(
            "error"@,
        ) ==> {
            let nested = match at_two(event, "response"@, "error"@) {
                Some(error) => error.get("message"@),
                None => None,
            };
            let (next, heard) = after_event(state, event);
            &&& next == state
            &&& heard is Err
            &&& nested matches Some(JsonView::Text(message)) ==> heard->Err_0 == message
            &&& nested is None && at_two(event, "error"@, "message"@) is Some && at_two(
                event,
                "error"@,
                "message"@,
            )->0 is Text ==> JsonView::Text(heard->Err_0) == at_two(
                event,
                "error"@,
                "message"@,
            )->0
            &&& nested is None && at_two(event, "error"@, "message"@) is None && event.text_at(
                "message"@,
            ) is Some ==> Some(heard->Err_0) == event.text_at("message"@)
        },
{
    kinds_differ();
}

/// An event of another kind changes nothing and tells nothing.
pub proof fn silent_law(state: DecoderView, event: JsonView)
    ensures
        ({
            let kind = event.text_at("type"@);
            &&& kind != Some("response.output_text.delta"@)
            &&& kind != Some("response.refusal.delta"@)
            &&& kind != Some("response.reasoning_summary_text.delta"@)
            &&& kind != Some("response.reasoning_text.delta"@)
            &&& kind != Some("response.output_item.added"@)
            &&& kind != Some("response.function_call_arguments.delta"@)
            &&& kind != Some("response.output_item.done"@)
            &&& kind != Some("response.completed"@)
            &&& kind != Some("response.incomplete"@)
            &&& kind != Some("response.failed"@)
            &&& kind != Some("error"@)
        }) ==> after_event(state, event) == (
            state,
            Ok::<Seq<DeltaView>, Seq<char>>(Seq::empty()),
        ),
{
    reveal_strlit("response.output_text.delta");
    reveal_strlit("response.refusal.delta");
    reveal_strlit("response.reasoning_summary_text.delta");
    reveal_strlit("response.reasoning_text.delta");
    reveal_strlit("response.output_item.added");
    reveal_strlit("response.function_call_arguments.delta");
    reveal_strlit("response.output_item.done");
    reveal_strlit("response.completed");
    reveal_strlit("response.incomplete");
    reveal_strlit("response.failed");
    reveal_strlit("error");
    let kind = text_or(event, "type"@);
    if event.text_at("type"@) is None {
        assert(kind.len() == 0);
    }
}

// ---------------------------------------------------------------------------
// Chat completions
// ---------------------------------------------------------------------------

/// A text that is there, or nothing, or null.
pub open spec fn is_maybe_text(value: Option<JsonView>) -> bool {
    match value {
        None => true,
        Some(JsonView::Null) => true,
        Some(JsonView::Text(_)) => true,
        _ => false,
    }
}

/// A function in a piece of a call that can be read.
pub open spec fn is_function(value: Option<JsonView>) -> bool {
    match value {
        None => true,
        Some(JsonView::Null) => true,
        Some(function) => {
            &&& function is Object
            &&& is_maybe_text(function.get("name"@))
            &&& function.get("arguments"@) is None || function.text_at("arguments"@) is Some
        },
    }
}

/// A piece of a call that can be read.
pub open spec fn is_call_piece(value: JsonView) -> bool {
    &&& value is Object
    &&& value.number_at("index"@) is Some
    &&& value.number_at("index"@)->0 <= usize::MAX
    &&& is_maybe_text(value.get("id"@))
    &&& is_function(value.get("function"@))
}

/// What is heard of a piece of a call.
pub open spec fn hears_call(value: JsonView, delta: DeltaView) -> bool {
    delta matches DeltaView::ToolCall { index, id, name, arguments } && {
        let function = match value.get("function"@) {
            Some(function) => function,
            None => JsonView::Null,
        };
        &&& value.number_at("index"@) == Some(index as u64)
        &&& id == value.text_at("id"@)
        &&& name == function.text_at("name"@)
        &&& arguments == match function.text_at("arguments"@) {
            Some(t) => t,
            None => Seq::empty(),
        }
    }
}

/// The calls in what a choice adds.
pub open spec fn calls_in(delta: JsonView) -> Seq<JsonView> {
    match delta.array_at("tool_calls"@) {
        Some(calls) => calls,
        None => Seq::empty(),
    }
}

/// What a choice adds, where it can be read.
pub open spec fn is_readable_delta(delta: JsonView) -> bool {
    &&& delta is Object
    &&& is_maybe_text(delta.get("content"@))
    &&& is_maybe_text(delta.get("reasoning"@))
    &&& is_maybe_text(delta.get("reasoning_content"@))
    &&& delta.get("tool_calls"@) is None || delta.array_at("tool_calls"@) is Some
    &&& forall|i: int| 0 <= i < calls_in(delta).len() ==> is_call_piece(#[trigger] calls_in(delta)[i])
}

/// A choice that can be read.
pub open spec fn is_readable_choice(choice: JsonView) -> bool {
    choice is Object && choice.get("delta"@) is Some && is_readable_delta(choice.get("delta"@)->0)
}

/// What is told of tokens, where it can be read.
pub open spec fn is_usage(value: Option<JsonView>) -> bool {
    match value {
        None => true,
        Some(JsonView::Null) => true,
        Some(usage) => {
            &&& usage is Object
            &&& usage.number_at("total_tokens"@) is Some
            &&& usage.get("prompt_tokens"@) is None || usage.number_at("prompt_tokens"@) is Some
        },
    }
}

/// The thought in what a choice adds.
pub open spec fn thought_in(delta: JsonView) -> Seq<char> {
    match delta.text_at("reasoning"@) {
        Some(t) => t,
        None => match delta.text_at("reasoning_content"@) {
            Some(t) => t,
            None => Seq::empty(),
        },
    }
}

/// The text in what a choice adds.
pub open spec fn text_in(delta: JsonView) -> Seq<char> {
    match delta.text_at("content"@) {
        Some(t) => t,
        None => Seq::empty(),
    }
}

/// What is heard of a choice: the thought, the text and then the calls, each where there is
/// one, and nothing else.
pub open spec fn hears_choice(delta: JsonView, heard: Seq<DeltaView>) -> bool {
    let thought = if thought_in(delta).len() > 0 {
        1int
    } else {
        0
    };
    let text = if text_in(delta).len() > 0 {
        1int
    } else {
        0
    };
    &&& heard.len() == thought + text + calls_in(delta).len()
    &&& thought == 1 ==> heard[0] == DeltaView::Reasoning(thought_in(delta))
    &&& text == 1 ==> heard[thought] == DeltaView::Text(text_in(delta))
    &&& forall|i: int|
        0 <= i < calls_in(delta).len() ==> hears_call(
            calls_in(delta)[i],
            #[trigger] heard[thought + text + i],
        )
}

proof fn piece_heard(value: JsonView)
    requires
        is_call_piece(value),
    ensures
        call_delta(value) is Some,
        hears_call(value, call_delta(value)->0),
{
    assert(fields_of(value, call_fields(), 3) == value);
    match value.get("function"@) {
        Some(function) => {
            if function is Object {
                assert(fields_of(function, function_fields(), 1) == function);
            }
        },
        None => {},
    }
}

proof fn pieces_heard(values: Seq<JsonView>)
    requires
        forall|i: int| 0 <= i < values.len() ==> is_call_piece(#[trigger] values[i]),
    ensures
        call_deltas(values) is Some,
        call_deltas(values)->0.len() == values.len(),
        forall|i: int|
            0 <= i < values.len() ==> hears_call(values[i], #[trigger] call_deltas(values)->0[i]),
    decreases values.len(),
{
    if values.len() > 0 {
        let rest = values.drop_last();
        assert forall|i: int| 0 <= i < rest.len() implies is_call_piece(#[trigger] rest[i]) by {
            assert(rest[i] == values[i]);
        }
        pieces_heard(rest);
        assert(is_call_piece(values[values.len() - 1]));
        piece_heard(values.last());
        assert forall|i: int| 0 <= i < values.len() implies hears_call(
            values[i],
            #[trigger] call_deltas(values)->0[i],
        ) by {
            if i < rest.len() {
                assert(rest[i] == values[i]);
                assert(call_deltas(values)->0[i] == call_deltas(rest)->0[i]);
            }
        }
    }
}

proof fn choice_heard(choice: JsonView)
    requires
        is_readable_choice(choice),
    ensures
        choice_deltas(choice) is Some,
        hears_choice(choice.get("delta"@)->0, choice_deltas(choice)->0),
{
    let delta = choice.get("delta"@)->0;
    assert(fields_of(choice, choice_fields(), 1) == choice);
    assert(fields_of(delta, delta_fields(), 3) == delta);
    pieces_heard(calls_in(delta));
    assert(call_deltas(Seq::empty()) == Some(Seq::<DeltaView>::empty()));
    let heard = choice_deltas(choice)->0;
    let thought = if thought_in(delta).len() > 0 {
        1int
    } else {
        0
    };
    let text = if text_in(delta).len() > 0 {
        1int
    } else {
        0
    };
    let calls = call_deltas(calls_in(delta))->0;
    assert forall|i: int| 0 <= i < calls_in(delta).len() implies hears_call(
        calls_in(delta)[i],
        #[trigger] heard[thought + text + i],
    ) by {
        assert(heard[thought + text + i] == calls[i]);
    }
}

proof fn choices_heard(choices: Seq<JsonView>, i: int)
    requires
        0 <= i,
        forall|k: int| 0 <= k < choices.len() ==> is_readable_choice(#[trigger] choices[k]),
    ensures
        choices_read(choices, i),
    decreases choices.len() - i,
{
    if i < choices.len() {
        assert(is_readable_choice(choices[i]));
        choice_heard(choices[i]);
        choices_heard(choices, i + 1);
    }
}

/// A chunk that can be read is read: what the first choice adds is heard, all of it and in
/// its order, and behind it the tokens, where they are told.
pub proof fn chunk_law(chunk: JsonView)
    requires
        chunk is Object,
        chunk.get("choices"@) is None || chunk.array_at("choices"@) is Some,
        chunk.array_at("choices"@) is Some ==> forall|k: int|
            0 <= k < chunk.array_at("choices"@)->0.len() ==> is_readable_choice(
                #[trigger] chunk.array_at("choices"@)->0[k],
            ),
        is_usage(chunk.get("usage"@)),
    ensures
        chunk_deltas(chunk) is Some,
        ({
            let heard = chunk_deltas(chunk)->0;
            let usage = chunk.get("usage"@);
            let told = usage is Some && !(usage->0 is Null);
            let rest = if told {
                heard.drop_last()
            } else {
                heard
            };
            &&& told ==> heard.len() > 0 && heard.last() == DeltaView::Usage(
                Usage {
                    prompt_tokens: match usage->0.number_at("prompt_tokens"@) {
                        Some(n) => n,
                        None => 0,
                    },
                    total_tokens: usage->0.number_at("total_tokens"@)->0,
                },
            )
            &&& chunk.array_at("choices"@) is Some && chunk.array_at("choices"@)->0.len() > 0
                ==> hears_choice(chunk.array_at("choices"@)->0[0].get("delta"@)->0, rest)
            &&& chunk.array_at("choices"@) is None || chunk.array_at("choices"@)->0.len() == 0
                ==> rest.len() == 0
        }),
{
    assert(fields_of(chunk, chunk_fields(), 2) == chunk);
    let usage = chunk.get("usage"@);
    if usage is Some && !(usage->0 is Null) {
        assert(fields_of(usage->0, usage_fields(), 2) == usage->0);
    }
    let choices = chunk_choices(chunk)->0;
    assert forall|k: int| 0 <= k < choices.len() implies is_readable_choice(
        #[trigger] choices[k],
    ) by {
        assert(chunk.array_at("choices"@)->0[k] == choices[k]);
    }
    choices_heard(choices, 0);
    let first = if choices.len() > 0 {
        choice_deltas(choices[0])->0
    } else {
        Seq::empty()
    };
    if choices.len() > 0 {
        choice_heard(choices[0]);
    }
    let heard = chunk_deltas(chunk)->0;
    if usage is Some && !(usage->0 is Null) {
        assert(heard.drop_last() =~= first);
    } else {
        assert(heard =~= first);
    }
}

} // verus!
