//! A response is put together from its pieces.
use super::agent::{Response, ResponseView};
use super::event::Event;
use super::message::{ToolCall, ToolCallView};
use crate::json;
use crate::json::{json_fault, read_json, Json, JsonView};
use crate::provider::{DeltaView, ResponseDelta, Usage};
use vstd::prelude::*;
use vstd::string::*;

verus! {

/// A call that is being written.
#[derive(Debug, PartialEq)]
pub struct ToolDraft {
    pub id: String,
    pub name: String,
    pub arguments: String,
}

pub struct DraftView {
    pub id: Seq<char>,
    pub name: Seq<char>,
    pub arguments: Seq<char>,
}

impl DeepView for ToolDraft {
    type V = DraftView;

    open spec fn deep_view(&self) -> DraftView {
        DraftView { id: self.id@, name: self.name@, arguments: self.arguments@ }
    }
}

pub open spec fn empty_draft() -> DraftView {
    DraftView { id: Seq::empty(), name: Seq::empty(), arguments: Seq::empty() }
}

/// A response of which pieces have come.
#[derive(Debug, PartialEq)]
pub struct Collector {
    pub reasoning: String,
    pub text: String,
    pub calls: Vec<ToolDraft>,
    pub usage: Option<Usage>,
    pub items: Vec<Json>,
}

pub struct CollectorView {
    pub reasoning: Seq<char>,
    pub text: Seq<char>,
    pub calls: Seq<DraftView>,
    pub usage: Option<Usage>,
    pub items: Seq<JsonView>,
}

impl DeepView for Collector {
    type V = CollectorView;

    open spec fn deep_view(&self) -> CollectorView {
        CollectorView {
            reasoning: self.reasoning@,
            text: self.text@,
            calls: self.calls.deep_view(),
            usage: self.usage,
            items: self.items.deep_view(),
        }
    }
}

/// The drafts, with empty ones up to `index`.
pub open spec fn padded(calls: Seq<DraftView>, index: int) -> Seq<DraftView> {
    if calls.len() > index {
        calls
    } else {
        calls + Seq::new((index + 1 - calls.len()) as nat, |i: int| empty_draft())
    }
}

/// A draft with another piece: an id takes the place of an older one, a name and
/// arguments go on.
pub open spec fn extended(
    draft: DraftView,
    id: Option<Seq<char>>,
    name: Option<Seq<char>>,
    arguments: Seq<char>,
) -> DraftView {
    DraftView {
        id: match id {
            Some(id) => id,
            None => draft.id,
        },
        name: match name {
            Some(name) => draft.name + name,
            None => draft.name,
        },
        arguments: draft.arguments + arguments,
    }
}

/// A response with another piece.
pub open spec fn collected(c: CollectorView, delta: DeltaView) -> CollectorView {
    match delta {
        DeltaView::Reasoning(t) => CollectorView { reasoning: c.reasoning + t, ..c },
        DeltaView::Text(t) => CollectorView { text: c.text + t, ..c },
        DeltaView::Usage(usage) => CollectorView { usage: Some(usage), ..c },
        DeltaView::OutputItem(item) => CollectorView { items: c.items.push(item), ..c },
        DeltaView::ToolCall { index, id, name, arguments } => {
            let calls = padded(c.calls, index as int);
            CollectorView {
                calls: calls.update(
                    index as int,
                    extended(calls[index as int], id, name, arguments),
                ),
                ..c
            }
        },
    }
}

/// What a piece is told as, once it is taken in.
pub open spec fn is_told(c: CollectorView, delta: DeltaView, event: Option<Event>) -> bool {
    match delta {
        DeltaView::Reasoning(t) => event matches Some(Event::ReasoningDelta(d)) && d@ == t,
        DeltaView::Text(t) => event matches Some(Event::TextDelta(d)) && d@ == t,
        DeltaView::Usage(_) => event is None,
        DeltaView::OutputItem(_) => event is None,
        DeltaView::ToolCall { index, arguments, .. } => {
            let name = c.calls[index as int].name;
            event matches Some(Event::ToolCallDelta { index: i, name: n, arguments: a }) && i
                == index && a@ == arguments && n.deep_view() == if name.len() > 0 {
                Some(name)
            } else {
                None
            }
        },
    }
}

/// The call that a draft writes; `None` where its arguments are not JSON.
pub open spec fn call_of(draft: DraftView) -> Option<ToolCallView> {
    match read_json(draft.arguments) {
        Some(arguments) => Some(ToolCallView { id: draft.id, name: draft.name, arguments }),
        None => None,
    }
}

/// The calls that drafts write.
pub open spec fn calls_of(drafts: Seq<DraftView>) -> Option<Seq<ToolCallView>>
    decreases drafts.len(),
{
    if drafts.len() == 0 {
        Some(Seq::empty())
    } else {
        match (calls_of(drafts.drop_last()), call_of(drafts.last())) {
            (Some(rest), Some(last)) => Some(rest.push(last)),
            _ => None,
        }
    }
}

/// What is wrong with the first draft whose arguments cannot be read.
pub open spec fn first_fault(drafts: Seq<DraftView>) -> Seq<char>
    decreases drafts.len(),
{
    if drafts.len() == 0 {
        Seq::empty()
    } else if calls_of(drafts.drop_last()) is None {
        first_fault(drafts.drop_last())
    } else {
        json_fault(drafts.last().arguments)
    }
}

/// The tokens of the response, without those of the request.
pub open spec fn output_of(usage: Usage) -> u64 {
    if usage.total_tokens >= usage.prompt_tokens {
        (usage.total_tokens - usage.prompt_tokens) as u64
    } else {
        0
    }
}

/// The tokens of the response, without those of the request.
pub fn output_tokens_of(usage: &Usage) -> (tokens: u64)
    ensures
        tokens == output_of(*usage),
{
    if usage.total_tokens >= usage.prompt_tokens {
        usage.total_tokens - usage.prompt_tokens
    } else {
        0
    }
}

proof fn no_calls(drafts: Seq<DraftView>, i: int)
    requires
        0 <= i < drafts.len(),
        call_of(drafts[i]) is None,
        calls_of(drafts.take(i)) is Some,
    ensures
        calls_of(drafts) is None,
        first_fault(drafts) == json_fault(drafts[i].arguments),
    decreases drafts.len(),
{
    if i < drafts.len() - 1 {
        assert(drafts.drop_last().take(i) =~= drafts.take(i));
        no_calls(drafts.drop_last(), i);
    } else {
        assert(drafts.take(i) =~= drafts.drop_last());
    }
}

impl Collector {
    pub fn new() -> (result: Self)
        ensures
            result.deep_view() == (CollectorView {
                reasoning: Seq::empty(),
                text: Seq::empty(),
                calls: Seq::empty(),
                usage: None,
                items: Seq::empty(),
            }),
    {
        let calls: Vec<ToolDraft> = Vec::new();
        let items: Vec<Json> = Vec::new();
        proof {
            assert(calls.deep_view() =~= Seq::empty());
            assert(items.deep_view() =~= Seq::empty());
        }
        Collector { reasoning: String::new(), text: String::new(), calls, usage: None, items }
    }

    fn pad(&mut self, index: usize)
        requires
            index < usize::MAX,
        ensures
            final(self).deep_view() == (CollectorView {
                calls: padded(old(self).deep_view().calls, index as int),
                ..old(self).deep_view()
            }),
            final(self).calls@.len() > index,
    {
        let ghost before = self.deep_view();
        while self.calls.len() <= index
            invariant
                index < usize::MAX,
                self.calls@.len() <= index + 1 || self.deep_view() == before,
                self.deep_view() == (CollectorView { calls: self.calls.deep_view(), ..before }),
                padded(self.calls.deep_view(), index as int) == padded(before.calls, index as int),
            decreases index + 1 - self.calls@.len(),
        {
            let ghost now = self.calls.deep_view();
            self.calls.push(
                ToolDraft { id: String::new(), name: String::new(), arguments: String::new() },
            );
            proof {
                assert(self.calls.deep_view() =~= now.push(empty_draft()));
                assert(padded(self.calls.deep_view(), index as int) =~= padded(now, index as int));
            }
        }
    }

    /// Takes in a piece, and says what it is told as.
    pub fn take(&mut self, delta: ResponseDelta) -> (event: Option<Event>)
        requires
            delta matches ResponseDelta::ToolCall { index, .. } ==> index < usize::MAX,
        ensures
            final(self).deep_view() == collected(old(self).deep_view(), delta.deep_view()),
            is_told(final(self).deep_view(), delta.deep_view(), event),
    {
        match delta {
            ResponseDelta::Reasoning(t) => {
                self.reasoning.append(t.as_str());
                Some(Event::ReasoningDelta(t))
            },
            ResponseDelta::Text(t) => {
                self.text.append(t.as_str());
                Some(Event::TextDelta(t))
            },
            ResponseDelta::Usage(usage) => {
                self.usage = Some(usage);
                None
            },
            ResponseDelta::OutputItem(item) => {
                let ghost before = self.items.deep_view();
                let ghost view = item.deep_view();
                self.items.push(item);
                assert(self.items.deep_view() =~= before.push(view));
                None
            },
            ResponseDelta::ToolCall { index, id, name, arguments } => {
                self.pad(index);
                let ghost drafts = self.calls.deep_view();
                let ghost id_view = id.deep_view();
                let ghost name_view = name.deep_view();
                let draft = &self.calls[index];
                let mut next = ToolDraft {
                    id: draft.id.clone(),
                    name: draft.name.clone(),
                    arguments: draft.arguments.clone(),
                };
                match id {
                    Some(id) => {
                        next.id = id;
                    },
                    None => {},
                }
                match name {
                    Some(name) => {
                        next.name.append(name.as_str());
                    },
                    None => {},
                }
                next.arguments.append(arguments.as_str());
                let told = if next.name.as_str().is_empty() {
                    None
                } else {
                    Some(next.name.clone())
                };
                let ghost view = next.deep_view();
                assert(view == extended(drafts[index as int], id_view, name_view, arguments@));
                self.calls[index] = next;
                assert(self.calls.deep_view() =~= drafts.update(index as int, view));
                Some(Event::ToolCallDelta { index, name: told, arguments })
            },
        }
    }

    /// The response, once all pieces have come.
    pub fn finish(self) -> (result: Result<Response, String>)
        ensures
            match result {
                Ok(response) => calls_of(self.deep_view().calls) is Some && response.deep_view()
                    == (ResponseView {
                    reasoning: self.reasoning@,
                    text: self.text@,
                    calls: calls_of(self.deep_view().calls)->0,
                    total_tokens: match self.usage {
                        Some(usage) => Some(usage.total_tokens),
                        None => None,
                    },
                    items: self.items.deep_view(),
                }),
                Err(error) => calls_of(self.deep_view().calls) is None && error@
                    == "decode tool arguments"@ + ": "@ + first_fault(self.deep_view().calls),
            },
    {
        let ghost all = self.calls.deep_view();
        let mut calls: Vec<ToolCall> = Vec::new();
        let mut i: usize = 0;
        assert(calls.deep_view() =~= Seq::empty());
        while i < self.calls.len()
            invariant
                all == self.calls.deep_view(),
                i <= self.calls@.len(),
                calls_of(all.take(i as int)) == Some(calls.deep_view()),
            decreases self.calls@.len() - i,
        {
            proof {
                assert(all.take(i + 1).drop_last() =~= all.take(i as int));
                assert(all.take(i + 1).last() == all[i as int]);
                assert(all[i as int] == self.calls@[i as int].deep_view());
            }
            let ghost before = calls.deep_view();
            match json::parse_for("decode tool arguments", self.calls[i].arguments.as_str()) {
                Ok(arguments) => {
                    let call = ToolCall {
                        id: self.calls[i].id.clone(),
                        name: self.calls[i].name.clone(),
                        arguments,
                    };
                    let ghost view = call.deep_view();
                    calls.push(call);
                    assert(calls.deep_view() =~= before.push(view));
                },
                Err(error) => {
                    proof {
                        no_calls(all, i as int);
                    }
                    return Err(error);
                },
            }
            i += 1;
        }
        assert(all.take(i as int) =~= all);
        let total_tokens = match self.usage {
            Some(usage) => Some(usage.total_tokens),
            None => None,
        };
        Ok(
            Response {
                reasoning: self.reasoning,
                text: self.text,
                calls,
                total_tokens,
                items: self.items,
            },
        )
    }
}

/// The text of all pieces of text, one after the other.
pub open spec fn all_text(deltas: Seq<DeltaView>) -> Seq<char>
    decreases deltas.len(),
{
    if deltas.len() == 0 {
        Seq::empty()
    } else {
        all_text(deltas.drop_last()) + match deltas.last() {
            DeltaView::Text(t) => t,
            _ => Seq::empty(),
        }
    }
}

/// The text of all pieces of reasoning, one after the other.
pub open spec fn all_reasoning(deltas: Seq<DeltaView>) -> Seq<char>
    decreases deltas.len(),
{
    if deltas.len() == 0 {
        Seq::empty()
    } else {
        all_reasoning(deltas.drop_last()) + match deltas.last() {
            DeltaView::Reasoning(t) => t,
            _ => Seq::empty(),
        }
    }
}

/// The items among the pieces, in order.
pub open spec fn all_items(deltas: Seq<DeltaView>) -> Seq<JsonView>
    decreases deltas.len(),
{
    if deltas.len() == 0 {
        Seq::empty()
    } else {
        all_items(deltas.drop_last()) + match deltas.last() {
            DeltaView::OutputItem(item) => seq![item],
            _ => Seq::empty(),
        }
    }
}

/// The usage that was told last; `known` where none was.
pub open spec fn last_usage(known: Option<Usage>, deltas: Seq<DeltaView>) -> Option<Usage>
    decreases deltas.len(),
{
    if deltas.len() == 0 {
        known
    } else {
        match deltas.last() {
            DeltaView::Usage(usage) => Some(usage),
            _ => last_usage(known, deltas.drop_last()),
        }
    }
}

/// The draft of the call at `index` behind all pieces: the id that came last, and the names
/// and the arguments one after the other.
pub open spec fn all_of_call(draft: DraftView, deltas: Seq<DeltaView>, at: int) -> DraftView
    decreases deltas.len(),
{
    if deltas.len() == 0 {
        draft
    } else {
        let before = all_of_call(draft, deltas.drop_last(), at);
        match deltas.last() {
            DeltaView::ToolCall { index, id, name, arguments } if index == at => extended(
                before,
                id,
                name,
                arguments,
            ),
            _ => before,
        }
    }
}

/// The draft of the call at `index`; an empty one where nothing of it has come.
pub open spec fn draft_at(calls: Seq<DraftView>, index: int) -> DraftView {
    if 0 <= index < calls.len() {
        calls[index]
    } else {
        empty_draft()
    }
}

/// A response behind all its pieces.
pub open spec fn collect_all(c: CollectorView, deltas: Seq<DeltaView>) -> CollectorView
    decreases deltas.len(),
{
    if deltas.len() == 0 {
        c
    } else {
        collected(collect_all(c, deltas.drop_last()), deltas.last())
    }
}

/// No piece is lost, doubled or moved: text, reasoning and items stand in the order in which
/// they came, the usage is the one told last, and each call has the pieces of its own place
/// and no others.
pub proof fn collect_law(c: CollectorView, deltas: Seq<DeltaView>)
    ensures
        ({
            let done = collect_all(c, deltas);
            &&& done.text == c.text + all_text(deltas)
            &&& done.reasoning == c.reasoning + all_reasoning(deltas)
            &&& done.items == c.items + all_items(deltas)
            &&& done.usage == last_usage(c.usage, deltas)
            &&& forall|i: int|
                0 <= i ==> #[trigger] draft_at(done.calls, i) == all_of_call(
                    draft_at(c.calls, i),
                    deltas,
                    i,
                )
        }),
    decreases deltas.len(),
{
    let done = collect_all(c, deltas);
    if deltas.len() > 0 {
        collect_law(c, deltas.drop_last());
        let before = collect_all(c, deltas.drop_last());
        assert(done.text =~= c.text + all_text(deltas));
        assert(done.reasoning =~= c.reasoning + all_reasoning(deltas));
        assert(done.items =~= c.items + all_items(deltas));
        assert forall|i: int| 0 <= i implies #[trigger] draft_at(done.calls, i) == all_of_call(
            draft_at(c.calls, i),
            deltas,
            i,
        ) by {
            assert(draft_at(before.calls, i) == all_of_call(
                draft_at(c.calls, i),
                deltas.drop_last(),
                i,
            ));
        }
    } else {
        assert(done.text =~= c.text + all_text(deltas));
        assert(done.reasoning =~= c.reasoning + all_reasoning(deltas));
        assert(done.items =~= c.items + all_items(deltas));
    }
}

} // verus!
