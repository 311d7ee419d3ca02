//! The messages of a conversation.
use crate::json::{Json, JsonView};
use vstd::prelude::*;
use vstd::string::*;

verus! {

/// An image that goes with a message. `data` is its Base64 text, `path` the place
/// of the stored file.
#[derive(Debug, PartialEq)]
pub struct ImageContent {
    pub mime_type: String,
    pub data: String,
    pub path: Option<String>,
    pub width: u32,
    pub height: u32,
}

pub struct ImageView {
    pub mime_type: Seq<char>,
    pub data: Seq<char>,
    pub path: Option<Seq<char>>,
    pub width: u32,
    pub height: u32,
}

impl DeepView for ImageContent {
    type V = ImageView;

    open spec fn deep_view(&self) -> ImageView {
        ImageView {
            mime_type: self.mime_type@,
            data: self.data@,
            path: self.path.deep_view(),
            width: self.width,
            height: self.height,
        }
    }
}

impl Clone for ImageContent {
    fn clone(&self) -> (result: Self)
        ensures
            result.deep_view() == self.deep_view(),
    {
        ImageContent {
            mime_type: self.mime_type.clone(),
            data: self.data.clone(),
            path: self.path.clone(),
            width: self.width,
            height: self.height,
        }
    }
}

/// A call of a tool that the model asks for.
#[derive(Debug, PartialEq)]
pub struct ToolCall {
    pub id: String,
    pub name: String,
    pub arguments: Json,
}

pub struct ToolCallView {
    pub id: Seq<char>,
    pub name: Seq<char>,
    pub arguments: JsonView,
}

impl DeepView for ToolCall {
    type V = ToolCallView;

    open spec fn deep_view(&self) -> ToolCallView {
        ToolCallView {
            id: self.id@,
            name: self.name@,
            arguments: self.arguments.deep_view(),
        }
    }
}

impl Clone for ToolCall {
    fn clone(&self) -> (result: Self)
        ensures
            result.deep_view() == self.deep_view(),
    {
        ToolCall {
            id: self.id.clone(),
            name: self.name.clone(),
            arguments: self.arguments.clone(),
        }
    }
}

/// One message of a conversation.
#[derive(Debug, PartialEq)]
pub enum Message {
    System { content: String },
    User { content: String, images: Vec<ImageContent> },
    /// A message that the user sent while a turn was running.
    Steer { content: String, images: Vec<ImageContent> },
    Assistant {
        content: String,
        model: String,
        reasoning: String,
        tool_calls: Vec<ToolCall>,
        response_items: Vec<Json>,
    },
    Tool {
        call_id: String,
        content: String,
        image: Option<ImageContent>,
        diff: Option<String>,
    },
}

pub enum MessageView {
    System { content: Seq<char> },
    User { content: Seq<char>, images: Seq<ImageView> },
    Steer { content: Seq<char>, images: Seq<ImageView> },
    Assistant {
        content: Seq<char>,
        model: Seq<char>,
        reasoning: Seq<char>,
        tool_calls: Seq<ToolCallView>,
        response_items: Seq<JsonView>,
    },
    Tool {
        call_id: Seq<char>,
        content: Seq<char>,
        image: Option<ImageView>,
        diff: Option<Seq<char>>,
    },
}

impl DeepView for Message {
    type V = MessageView;

    open spec fn deep_view(&self) -> MessageView {
        match *self {
            Message::System { content } => MessageView::System { content: content@ },
            Message::User { content, images } => MessageView::User {
                content: content@,
                images: images.deep_view(),
            },
            Message::Steer { content, images } => MessageView::Steer {
                content: content@,
                images: images.deep_view(),
            },
            Message::Assistant { content, model, reasoning, tool_calls, response_items } =>
                MessageView::Assistant {
                content: content@,
                model: model@,
                reasoning: reasoning@,
                tool_calls: tool_calls.deep_view(),
                response_items: response_items.deep_view(),
            },
            Message::Tool { call_id, content, image, diff } => MessageView::Tool {
                call_id: call_id@,
                content: content@,
                image: image.deep_view(),
                diff: diff.deep_view(),
            },
        }
    }
}

impl MessageView {
    /// The text of a message.
    pub open spec fn content(self) -> Seq<char> {
        match self {
            MessageView::System { content } => content,
            MessageView::User { content, .. } => content,
            MessageView::Steer { content, .. } => content,
            MessageView::Assistant { content, .. } => content,
            MessageView::Tool { content, .. } => content,
        }
    }
}

/// A copy of a list of images.
pub fn clone_images(images: &Vec<ImageContent>) -> (result: Vec<ImageContent>)
    ensures
        result.deep_view() == images.deep_view(),
{
    let result = images.clone();
    assert(result.deep_view() =~= images.deep_view());
    result
}

/// A copy of a list of calls.
pub fn clone_calls(calls: &Vec<ToolCall>) -> (result: Vec<ToolCall>)
    ensures
        result.deep_view() == calls.deep_view(),
{
    let result = calls.clone();
    assert(result.deep_view() =~= calls.deep_view());
    result
}

/// A copy of a list of JSON values.
pub fn clone_values(values: &Vec<Json>) -> (result: Vec<Json>)
    ensures
        result.deep_view() == values.deep_view(),
{
    let result = values.clone();
    assert(result.deep_view() =~= values.deep_view());
    result
}

impl Clone for Message {
    fn clone(&self) -> (result: Self)
        ensures
            result.deep_view() == self.deep_view(),
    {
        match self {
            Message::System { content } => Message::System { content: content.clone() },
            Message::User { content, images } => Message::User {
                content: content.clone(),
                images: clone_images(images),
            },
            Message::Steer { content, images } => Message::Steer {
                content: content.clone(),
                images: clone_images(images),
            },
            Message::Assistant { content, model, reasoning, tool_calls, response_items } =>
                Message::Assistant {
                content: content.clone(),
                model: model.clone(),
                reasoning: reasoning.clone(),
                tool_calls: clone_calls(tool_calls),
                response_items: clone_values(response_items),
            },
            Message::Tool { call_id, content, image, diff } => Message::Tool {
                call_id: call_id.clone(),
                content: content.clone(),
                image: image.clone(),
                diff: diff.clone(),
            },
        }
    }
}

impl Message {
    pub fn system(content: String) -> (result: Self)
        ensures
            result.deep_view() == (MessageView::System { content: content@ }),
    {
        Message::System { content }
    }

    pub fn user(content: String) -> (result: Self)
        ensures
            result.deep_view() == (MessageView::User { content: content@, images: Seq::empty() }),
    {
        let images: Vec<ImageContent> = Vec::new();
        assert(images.deep_view() =~= Seq::empty());
        Message::User { content, images }
    }

    pub fn user_with_images(content: String, images: Vec<ImageContent>) -> (result: Self)
        ensures
            result.deep_view() == (MessageView::User {
                content: content@,
                images: images.deep_view(),
            }),
    {
        Message::User { content, images }
    }

    pub fn assistant(
        content: String,
        model: String,
        reasoning: String,
        tool_calls: Vec<ToolCall>,
    ) -> (result: Self)
        ensures
            result.deep_view() == (MessageView::Assistant {
                content: content@,
                model: model@,
                reasoning: reasoning@,
                tool_calls: tool_calls.deep_view(),
                response_items: Seq::empty(),
            }),
    {
        let response_items: Vec<Json> = Vec::new();
        assert(response_items.deep_view() =~= Seq::empty());
        Message::Assistant { content, model, reasoning, tool_calls, response_items }
    }

    pub fn tool(
        call_id: String,
        content: String,
        image: Option<ImageContent>,
        diff: Option<String>,
    ) -> (result: Self)
        ensures
            result.deep_view() == (MessageView::Tool {
                call_id: call_id@,
                content: content@,
                image: image.deep_view(),
                diff: diff.deep_view(),
            }),
    {
        Message::Tool { call_id, content, image, diff }
    }

    /// The text of a message.
    pub fn content(&self) -> (result: &str)
        ensures
            result@ == self.deep_view().content(),
    {
        match self {
            Message::System { content } => content.as_str(),
            Message::User { content, .. } => content.as_str(),
            Message::Steer { content, .. } => content.as_str(),
            Message::Assistant { content, .. } => content.as_str(),
            Message::Tool { content, .. } => content.as_str(),
        }
    }
}

} // verus!
