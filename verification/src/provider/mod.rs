//! The endpoints that models are reached by.
use crate::json::{Json, JsonView};
use vstd::prelude::*;
use vstd::string::*;

pub mod body;
pub mod openai;
pub mod responses;
pub mod stream_law;
pub mod wire_law;

verus! {

/// The tokens of a request, and of the request with its response.
#[derive(Clone, Copy, Debug, PartialEq, Eq, Structural)]
pub struct Usage {
    pub prompt_tokens: u64,
    pub total_tokens: u64,
}

impl DeepView for Usage {
    type V = Usage;

    open spec fn deep_view(&self) -> Usage {
        *self
    }
}

/// A piece of a response.
#[derive(Debug, PartialEq)]
pub enum ResponseDelta {
    Reasoning(String),
    Text(String),
    Usage(Usage),
    ToolCall { index: usize, id: Option<String>, name: Option<String>, arguments: String },
    OutputItem(Json),
}

pub enum DeltaView {
    Reasoning(Seq<char>),
    Text(Seq<char>),
    Usage(Usage),
    ToolCall {
        index: usize,
        id: Option<Seq<char>>,
        name: Option<Seq<char>>,
        arguments: Seq<char>,
    },
    OutputItem(JsonView),
}

impl DeepView for ResponseDelta {
    type V = DeltaView;

    open spec fn deep_view(&self) -> DeltaView {
        match *self {
            ResponseDelta::Reasoning(delta) => DeltaView::Reasoning(delta@),
            ResponseDelta::Text(delta) => DeltaView::Text(delta@),
            ResponseDelta::Usage(usage) => DeltaView::Usage(usage),
            ResponseDelta::ToolCall { index, id, name, arguments } => DeltaView::ToolCall {
                index,
                id: id.deep_view(),
                name: name.deep_view(),
                arguments: arguments@,
            },
            ResponseDelta::OutputItem(item) => DeltaView::OutputItem(item.deep_view()),
        }
    }
}

} // verus!
