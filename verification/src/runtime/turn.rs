//! What surrounds the turns of a conversation: summaries, titles and retries.
use super::budget::{capped, estimate_tokens, tokens_of};
use super::context::{clone_messages, summary_as_message, summary_message};
use super::message::{Message, MessageView};
use super::ReasoningEffort;
use crate::config::{active, light_effort, Config};
use crate::json;
use crate::json::read_json;
use crate::text;
use crate::text::{has_text, is_letter_or_digit, is_space, join, lines, lower, trim, trim_by, words};
use crate::tool::registry::{DefinitionView, ToolDefinition};
use vstd::prelude::*;
use vstd::string::*;

verus! {

// ---------------------------------------------------------------------------
// Requests
// ---------------------------------------------------------------------------

/// A request to a model. The temperature is the bit pattern of a single-precision
/// number.
#[derive(Debug, PartialEq)]
pub struct CompletionRequest {
    pub provider: String,
    pub model: String,
    pub messages: Vec<Message>,
    pub temperature: Option<u32>,
    pub reasoning_effort: Option<ReasoningEffort>,
    pub max_tokens: Option<u32>,
    pub stream: bool,
    pub tools: Vec<ToolDefinition>,
}

pub struct RequestView {
    pub provider: Seq<char>,
    pub model: Seq<char>,
    pub messages: Seq<MessageView>,
    pub temperature: Option<u32>,
    pub reasoning_effort: Option<ReasoningEffort>,
    pub max_tokens: Option<u32>,
    pub stream: bool,
    pub tools: Seq<DefinitionView>,
}

impl DeepView for CompletionRequest {
    type V = RequestView;

    open spec fn deep_view(&self) -> RequestView {
        RequestView {
            provider: self.provider@,
            model: self.model@,
            messages: self.messages.deep_view(),
            temperature: self.temperature,
            reasoning_effort: self.reasoning_effort,
            max_tokens: self.max_tokens,
            stream: self.stream,
            tools: self.tools.deep_view(),
        }
    }
}

/// A request of a turn.
pub fn turn_request(config: &Config, messages: Vec<Message>, tools: Vec<ToolDefinition>) -> (request: CompletionRequest)
    requires
        config.models@.len() > 0,
    ensures
        ({
            let model = active(config.deep_view());
            request.deep_view() == (RequestView {
                provider: model.provider,
                model: model.id,
                messages: messages.deep_view(),
                temperature: match config.temperature {
                    Some(t) => Some(t),
                    None => model.temperature,
                },
                reasoning_effort: match config.reasoning_effort {
                    Some(effort) if model.reasoning_efforts.contains(effort) => Some(effort),
                    _ => None,
                },
                max_tokens: None,
                stream: true,
                tools: tools.deep_view(),
            })
        }),
{
    CompletionRequest {
        provider: config.provider_name().to_owned(),
        model: config.model_id().to_owned(),
        messages,
        temperature: config.effective_temperature(),
        reasoning_effort: config.effective_reasoning_effort(),
        max_tokens: None,
        stream: true,
        tools,
    }
}

fn no_tools() -> (tools: Vec<ToolDefinition>)
    ensures
        tools.deep_view() == Seq::<DefinitionView>::empty(),
{
    let tools: Vec<ToolDefinition> = Vec::new();
    assert(tools.deep_view() =~= Seq::empty());
    tools
}

// ---------------------------------------------------------------------------
// The start of a turn
// ---------------------------------------------------------------------------

/// The tokens that a turn starts with: what the messages take up, or what the model
/// told last, whichever is more.
pub fn turn_estimate(messages: &Vec<Message>, context_tokens: u64) -> (tokens: u64)
    ensures
        ({
            let estimated = capped(tokens_of(messages.deep_view()));
            tokens == if estimated > context_tokens {
                estimated
            } else {
                context_tokens
            }
        }),
{
    let estimated: u64 = estimate_tokens(messages);
    if estimated > context_tokens {
        estimated
    } else {
        context_tokens
    }
}

/// The messages to summarize before a turn, and the message that begins it.
pub fn split_for_summary(messages: Vec<Message>) -> (result: Result<(Vec<Message>, Message), String>)
    ensures
        match result {
            Ok(parts) => {
                &&& messages@.len() > 0
                &&& parts.0.deep_view() == messages.deep_view().drop_last()
                &&& parts.1.deep_view() == messages.deep_view().last()
            },
            Err(error) => messages@.len() == 0 && error@ == "missing user message"@,
        },
{
    let ghost all = messages.deep_view();
    let mut rest = messages;
    match rest.pop() {
        Some(user) => {
            assert(rest.deep_view() =~= all.drop_last());
            Ok((rest, user))
        },
        None => Err("missing user message".to_owned()),
    }
}

/// The messages of a turn that starts from a summary.
pub fn start_from_summary(summary: &str, user: Message) -> (messages: Vec<Message>)
    ensures
        messages.deep_view() == seq![summary_message(summary@), user.deep_view()],
{
    let ghost view = user.deep_view();
    let mut messages: Vec<Message> = Vec::new();
    messages.push(summary_as_message(summary));
    messages.push(user);
    assert(messages.deep_view() =~= seq![summary_message(summary@), view]);
    messages
}

// ---------------------------------------------------------------------------
// Summaries
// ---------------------------------------------------------------------------

/// What a model is asked for a summary with.
pub const SUMMARY_PROMPT: &'static str =
    "Summarize this conversation for seamless continuation. Preserve requirements, decisions, files, commands, errors, results, and unresolved work. Be dense and factual. Return only the summary.";

/// The length of a summary in tokens: an eighth of the context, within limits.
pub open spec fn summary_length(max_context_tokens: u64) -> u32 {
    let share = max_context_tokens / 8;
    if share < 512 {
        512
    } else if share > 4096 {
        4096
    } else {
        share as u32
    }
}

/// The request for a summary of `messages`.
pub fn summary_request(config: &Config, messages: &Vec<Message>) -> (request: CompletionRequest)
    requires
        config.models@.len() > 0,
    ensures
        ({
            let model = active(config.deep_view());
            request.deep_view() == (RequestView {
                provider: model.provider,
                model: model.id,
                messages: seq![MessageView::System { content: SUMMARY_PROMPT@ }]
                    + messages.deep_view(),
                temperature: match config.temperature {
                    Some(t) => Some(t),
                    None => model.temperature,
                },
                reasoning_effort: light_effort(model.reasoning_efforts),
                max_tokens: Some(summary_length(model.max_context_tokens)),
                stream: true,
                tools: Seq::empty(),
            })
        }),
{
    let mut all = clone_messages(messages);
    let first = Message::system(SUMMARY_PROMPT.to_owned());
    let ghost head = first.deep_view();
    let ghost rest = all.deep_view();
    all.insert(0, first);
    assert(all.deep_view() =~= seq![head] + rest);
    let share: u64 = config.active_model().max_context_tokens / 8;
    let length: u32 = if share < 512 {
        512
    } else if share > 4096 {
        4096
    } else {
        share as u32
    };
    CompletionRequest {
        provider: config.provider_name().to_owned(),
        model: config.model_id().to_owned(),
        messages: all,
        temperature: config.effective_temperature(),
        reasoning_effort: config.light_reasoning_effort(),
        max_tokens: Some(length),
        stream: true,
        tools: no_tools(),
    }
}

/// The summary that a response holds: its text, or its reasoning where it has none.
pub open spec fn summary_of(said: Seq<char>, reasoning: Seq<char>) -> Seq<char> {
    if trim(said).len() == 0 {
        trim(reasoning)
    } else {
        trim(said)
    }
}

/// The summary that a response holds.
pub fn summary_text(said: &str, reasoning: &str) -> (result: Result<String, String>)
    ensures
        match result {
            Ok(summary) => summary@ == summary_of(said@, reasoning@) && summary@.len() > 0,
            Err(error) => summary_of(said@, reasoning@).len() == 0 && error@
                == "compaction returned an empty summary"@,
        },
{
    let spoken = text::trimmed(said);
    let summary = if spoken.as_str().is_empty() {
        text::trimmed(reasoning)
    } else {
        spoken
    };
    if summary.as_str().is_empty() {
        Err("compaction returned an empty summary".to_owned())
    } else {
        Ok(summary)
    }
}

// ---------------------------------------------------------------------------
// Titles
// ---------------------------------------------------------------------------

/// The text of the first message of the user.
pub open spec fn first_user(messages: Seq<MessageView>) -> Option<Seq<char>>
    decreases messages.len(),
{
    if messages.len() == 0 {
        None
    } else {
        match messages[0] {
            MessageView::User { content, .. } => Some(content),
            _ => first_user(messages.skip(1)),
        }
    }
}

/// The text of the last message of the model, or none.
pub open spec fn last_answer(messages: Seq<MessageView>) -> Seq<char>
    decreases messages.len(),
{
    if messages.len() == 0 {
        Seq::empty()
    } else {
        match messages.last() {
            MessageView::Assistant { content, .. } => content,
            _ => last_answer(messages.drop_last()),
        }
    }
}

fn find_first_user(messages: &Vec<Message>) -> (result: Option<&String>)
    ensures
        result.deep_view() == first_user(messages.deep_view()),
{
    let ghost all = messages.deep_view();
    let mut i: usize = 0;
    assert(all.skip(0) =~= all);
    while i < messages.len()
        invariant
            all == messages.deep_view(),
            i <= messages@.len(),
            first_user(all) == first_user(all.skip(i as int)),
        decreases messages@.len() - i,
    {
        proof {
            assert(all.skip(i as int)[0] == messages@[i as int].deep_view());
            assert(all.skip(i as int).skip(1) =~= all.skip(i + 1));
        }
        if let Message::User { content, .. } = &messages[i] {
            return Some(content);
        }
        i += 1;
    }
    None
}

fn find_last_answer(messages: &Vec<Message>) -> (result: String)
    ensures
        result@ == last_answer(messages.deep_view()),
{
    let ghost all = messages.deep_view();
    let mut i: usize = messages.len();
    assert(all.take(i as int) =~= all);
    while i > 0
        invariant
            all == messages.deep_view(),
            i <= messages@.len(),
            last_answer(all) == last_answer(all.take(i as int)),
        decreases i,
    {
        i -= 1;
        proof {
            assert(all.take(i + 1).last() == messages@[i as int].deep_view());
            assert(all.take(i + 1).drop_last() =~= all.take(i as int));
        }
        if let Message::Assistant { content, .. } = &messages[i] {
            return content.clone();
        }
    }
    String::new()
}

/// What a model is asked for a title with.
pub const TITLE_PROMPT: &'static str =
    "Create a concise 2-3 word title for this conversation. Return only the title without quotes, markdown, punctuation, or explanation.";

/// The first `n` characters of a text.
pub open spec fn head(s: Seq<char>, n: int) -> Seq<char> {
    if n < s.len() {
        s.take(n)
    } else {
        s
    }
}

/// The beginnings of a conversation, for a title.
pub open spec fn title_excerpt(user: Seq<char>, answer: Seq<char>) -> Seq<char> {
    "User:\n"@ + head(user, 1200) + "\n\nAssistant:\n"@ + head(answer, 1200)
}

/// The request for a title of a conversation; none where the user said nothing.
pub fn title_request(config: &Config, messages: &Vec<Message>) -> (result: Option<CompletionRequest>)
    requires
        config.models@.len() > 0,
    ensures
        ({
            let model = active(config.deep_view());
            match first_user(messages.deep_view()) {
                Some(user) => result is Some && result->0.deep_view() == (RequestView {
                    provider: model.provider,
                    model: model.id,
                    messages: seq![
                        MessageView::System { content: TITLE_PROMPT@ },
                        MessageView::User {
                            content: title_excerpt(user, last_answer(messages.deep_view())),
                            images: Seq::empty(),
                        },
                    ],
                    temperature: None,
                    reasoning_effort: light_effort(model.reasoning_efforts),
                    max_tokens: Some(512),
                    stream: true,
                    tools: Seq::empty(),
                }),
                None => result is None,
            }
        }),
{
    let user = match find_first_user(messages) {
        Some(user) => user,
        None => {
            return None;
        },
    };
    let answer = find_last_answer(messages);
    let mut prompt = "User:\n".to_owned();
    prompt.append(text::first_chars(user.as_str(), 1200).as_str());
    prompt.append("\n\nAssistant:\n");
    prompt.append(text::first_chars(answer.as_str(), 1200).as_str());
    let mut all: Vec<Message> = Vec::new();
    all.push(Message::system(TITLE_PROMPT.to_owned()));
    all.push(Message::user(prompt));
    assert(all.deep_view() =~= seq![all@[0].deep_view(), all@[1].deep_view()]);
    Some(
        CompletionRequest {
            provider: config.provider_name().to_owned(),
            model: config.model_id().to_owned(),
            messages: all,
            temperature: None,
            reasoning_effort: config.light_reasoning_effort(),
            max_tokens: Some(512),
            stream: true,
            tools: no_tools(),
        },
    )
}

/// What a title may be wrapped in.
pub open spec fn is_wrapping(c: char) -> bool {
    is_space(c) || c == '"' || c == '\'' || c == '`' || c == '#' || c == '*' || c == '.'
}

/// What a word of a title may not begin or end with.
pub open spec fn is_punctuation(c: char) -> bool {
    !is_letter_or_digit(c) && c != '-' && c != '\''
}

pub open spec fn wrapping() -> spec_fn(char) -> bool {
    |c: char| is_wrapping(c)
}

pub open spec fn punctuation() -> spec_fn(char) -> bool {
    |c: char| is_punctuation(c)
}

/// The last line that holds anything, without white space round it.
pub open spec fn last_line(all: Seq<Seq<char>>) -> Option<Seq<char>>
    decreases all.len(),
{
    if all.len() == 0 {
        None
    } else if trim(all.last()).len() > 0 {
        Some(trim(all.last()))
    } else {
        last_line(all.drop_last())
    }
}

/// A line without a leading `title:`.
pub open spec fn without_label(line: Seq<char>) -> Seq<char> {
    if line.len() >= 6 && lower(line.take(6)) == "title:"@ {
        trim(line.skip(6))
    } else {
        line
    }
}

/// The first words that are more than punctuation, at most `n`, each without
/// punctuation round it.
pub open spec fn title_words(all: Seq<Seq<char>>, n: nat) -> Seq<Seq<char>>
    decreases all.len(),
{
    if all.len() == 0 || n == 0 {
        Seq::empty()
    } else {
        let word = trim_by(all[0], punctuation());
        if word.len() == 0 {
            title_words(all.skip(1), n)
        } else {
            seq![word] + title_words(all.skip(1), (n - 1) as nat)
        }
    }
}

/// Whether a text holds white space.
pub open spec fn has_space(s: Seq<char>) -> bool {
    exists|i: int| 0 <= i < s.len() && is_space(#[trigger] s[i])
}

/// The title that a text stands for: the first three words of its last line.
pub open spec fn title_of(source: Seq<char>) -> Option<Seq<char>> {
    match last_line(lines(source)) {
        Some(line) => {
            let bare = without_label(trim_by(line, wrapping()));
            let title = join(title_words(words(bare), 3), " "@);
            if title.len() == 0 {
                None
            } else if has_space(title) {
                Some(title)
            } else {
                Some(title + " Conversation"@)
            }
        },
        None => None,
    }
}

/// A title is made of three words of its source at most, none of them empty, and never
/// of a single word.
pub proof fn title_law(source: Seq<char>, all: Seq<Seq<char>>, n: nat)
    ensures
        title_of(source) matches Some(title) ==> has_space(title),
        title_words(all, n).len() <= n,
        forall|i: int|
            0 <= i < title_words(all, n).len() ==> (#[trigger] title_words(all, n)[i]).len() > 0,
    decreases all.len(),
{
    if let Some(title) = title_of(source) {
        let line = last_line(lines(source))->0;
        let bare = without_label(trim_by(line, wrapping()));
        let short = join(title_words(words(bare), 3), " "@);
        if !has_space(short) {
            reveal_strlit(" Conversation");
            assert(title[short.len() as int] == ' ');
        }
    }
    if all.len() > 0 && n > 0 {
        let word = trim_by(all[0], punctuation());
        if word.len() == 0 {
            title_law(source, all.skip(1), n);
        } else {
            title_law(source, all.skip(1), (n - 1) as nat);
            let rest = title_words(all.skip(1), (n - 1) as nat);
            assert forall|i: int| 0 <= i < title_words(all, n).len() implies (
            #[trigger] title_words(all, n)[i]).len() > 0 by {
                if i > 0 {
                    assert(title_words(all, n)[i] == rest[i - 1]);
                }
            }
        }
    }
}

/// The text that holds the title: the field of that name, or all of the response.
pub open spec fn title_source(raw: Seq<char>) -> Seq<char> {
    match read_json(raw) {
        Some(value) => match value.text_at("title"@) {
            Some(title) => title,
            None => raw,
        },
        None => raw,
    }
}

fn cuts_wrapping(c: char) -> (result: bool)
    ensures
        result == is_wrapping(c),
{
    text::is_white_space(c) || c == '"' || c == '\'' || c == '`' || c == '#' || c == '*' || c == '.'
}

fn cuts_punctuation(c: char) -> (result: bool)
    ensures
        result == is_punctuation(c),
{
    !text::is_alphanumeric(c) && c != '-' && c != '\''
}

fn find_last_line(all: &Vec<String>) -> (result: Option<String>)
    ensures
        result.deep_view() == last_line(all.deep_view()),
{
    let ghost view = all.deep_view();
    let mut i: usize = all.len();
    assert(view.take(i as int) =~= view);
    while i > 0
        invariant
            view == all.deep_view(),
            i <= all@.len(),
            last_line(view) == last_line(view.take(i as int)),
        decreases i,
    {
        i -= 1;
        proof {
            assert(view.take(i + 1).last() == all@[i as int]@);
            assert(view.take(i + 1).drop_last() =~= view.take(i as int));
        }
        let line = text::trimmed(all[i].as_str());
        if !line.as_str().is_empty() {
            return Some(line);
        }
    }
    None
}

fn strip_label(line: String) -> (result: String)
    ensures
        result@ == without_label(line@),
{
    let chars = text::to_chars(line.as_str());
    if chars.len() >= 6 {
        let start = text::from_chars(&chars, 0, 6);
        assert(line@.subrange(0, 6) =~= line@.take(6));
        let lowered = text::to_lower(start.as_str());
        if text::same(lowered.as_str(), "title:") {
            let rest = text::from_chars(&chars, 6, chars.len());
            assert(line@.subrange(6, line@.len() as int) =~= line@.skip(6));
            return text::trimmed(rest.as_str());
        }
    }
    line
}

fn take_title_words(all: &Vec<String>) -> (result: Vec<String>)
    ensures
        result.deep_view() == title_words(all.deep_view(), 3),
{
    let ghost view = all.deep_view();
    let mut result: Vec<String> = Vec::new();
    let mut i: usize = 0;
    proof {
        assert(view.skip(0) =~= view);
        assert(result.deep_view() + title_words(view.skip(0), 3) =~= title_words(view, 3));
    }
    while i < all.len() && result.len() < 3
        invariant
            view == all.deep_view(),
            i <= all@.len(),
            result@.len() <= 3,
            result.deep_view() + title_words(view.skip(i as int), (3 - result@.len()) as nat)
                == title_words(view, 3),
        decreases all@.len() - i,
    {
        let ghost before = result.deep_view();
        let ghost n = (3 - result@.len()) as nat;
        proof {
            assert(view.skip(i as int)[0] == all@[i as int]@);
            assert(view.skip(i as int).skip(1) =~= view.skip(i + 1));
        }
        let word = text::trimmed_by(all[i].as_str(), cuts_punctuation, Ghost(punctuation()));
        if !word.as_str().is_empty() {
            let ghost w = word@;
            result.push(word);
            proof {
                assert(result.deep_view() =~= before.push(w));
                let rest = title_words(view.skip(i + 1), (n - 1) as nat);
                assert(before + (seq![w] + rest) =~= before.push(w) + rest);
            }
        }
        i += 1;
    }
    proof {
        let rest = title_words(view.skip(i as int), (3 - result@.len()) as nat);
        assert(rest =~= Seq::empty());
        assert(result.deep_view() + rest =~= result.deep_view());
    }
    result
}

fn holds_space(s: &str) -> (result: bool)
    ensures
        result == has_space(s@),
{
    let chars = text::to_chars(s);
    let mut i: usize = 0;
    while i < chars.len()
        invariant
            chars@ == s@,
            i <= chars@.len(),
            forall|k: int| 0 <= k < i ==> !is_space(#[trigger] s@[k]),
        decreases chars@.len() - i,
    {
        if text::is_white_space(chars[i]) {
            assert(is_space(s@[i as int]));
            return true;
        }
        i += 1;
    }
    false
}

/// The title that a text stands for.
pub fn title_from_text(source: &str) -> (result: Option<String>)
    ensures
        result.deep_view() == title_of(source@),
{
    let all = text::split_lines(source);
    let line = match find_last_line(&all) {
        Some(line) => line,
        None => {
            return None;
        },
    };
    let bare = strip_label(text::trimmed_by(line.as_str(), cuts_wrapping, Ghost(wrapping())));
    let parts = take_title_words(&text::split_words(bare.as_str()));
    let mut title = text::join_all(&parts, " ");
    if title.as_str().is_empty() {
        return None;
    }
    if !holds_space(title.as_str()) {
        title.append(" Conversation");
    }
    Some(title)
}

/// The title that a response stands for.
pub fn clean_session_title(raw: &str) -> (result: Option<String>)
    ensures
        result.deep_view() == title_of(title_source(raw@)),
{
    match json::parse(raw) {
        Some(value) => match value.text_at("title") {
            Some(title) => {
                return title_from_text(title.as_str());
            },
            None => {},
        },
        None => {},
    }
    title_from_text(raw)
}

/// The title of a conversation to which the model gave none.
pub open spec fn fallback_title(messages: Seq<MessageView>) -> Seq<char> {
    match first_user(messages) {
        Some(content) => match title_of(title_source(content)) {
            Some(title) => title,
            None => "New Conversation"@,
        },
        None => "New Conversation"@,
    }
}

/// The title of a conversation to which the model gave none.
pub fn fallback_session_title(messages: &Vec<Message>) -> (title: String)
    ensures
        title@ == fallback_title(messages.deep_view()),
{
    match find_first_user(messages) {
        Some(content) => match clean_session_title(content.as_str()) {
            Some(title) => title,
            None => "New Conversation".to_owned(),
        },
        None => "New Conversation".to_owned(),
    }
}

/// The title from a response: from its text, else from its reasoning, else from
/// what the user said. `response` is the text and the reasoning, where there is one.
pub fn choose_title(response: Option<(String, String)>, messages: &Vec<Message>) -> (title: String)
    ensures
        title@ == match response {
            Some(said) => match title_of(title_source(said.0@)) {
                Some(title) => title,
                None => match title_of(title_source(said.1@)) {
                    Some(title) => title,
                    None => fallback_title(messages.deep_view()),
                },
            },
            None => fallback_title(messages.deep_view()),
        },
{
    match response {
        Some(said) => match clean_session_title(said.0.as_str()) {
            Some(title) => title,
            None => match clean_session_title(said.1.as_str()) {
                Some(title) => title,
                None => fallback_session_title(messages),
            },
        },
        None => fallback_session_title(messages),
    }
}

// ---------------------------------------------------------------------------
// Retries
// ---------------------------------------------------------------------------

/// The seconds to wait before the next attempt.
pub open spec fn delay(attempt: usize) -> u64 {
    if attempt == 0 {
        2
    } else if attempt == 1 {
        5
    } else if attempt == 2 {
        10
    } else {
        30
    }
}

/// The seconds to wait before the next attempt.
pub fn retry_delay(attempt: usize) -> (seconds: u64)
    ensures
        seconds == delay(attempt),
{
    if attempt == 0 {
        2
    } else if attempt == 1 {
        5
    } else if attempt == 2 {
        10
    } else {
        30
    }
}

/// Waiting never gets shorter, and stays within half a minute.
pub proof fn delay_law(earlier: usize, later: usize)
    requires
        earlier <= later,
    ensures
        delay(earlier) <= delay(later) <= 30,
        delay(earlier) >= 2,
{
}

/// An error that may pass.
pub open spec fn is_transient(error: Seq<char>) -> bool {
    let e = lower(error);
    ||| has_text(e, "send completion request"@)
    ||| has_text(e, "connection"@)
    ||| has_text(e, "timed out"@)
    ||| has_text(e, "timeout"@)
    ||| has_text(e, "server returned 408"@)
    ||| has_text(e, "server returned 429"@)
    ||| has_text(e, "server returned 500"@)
    ||| has_text(e, "server returned 502"@)
    ||| has_text(e, "server returned 503"@)
    ||| has_text(e, "server returned 504"@)
}

/// Whether an error, given with its causes, may pass.
pub fn is_retryable(error: &str) -> (result: bool)
    ensures
        result == is_transient(error@),
{
    let lowered = text::to_lower(error);
    let e = lowered.as_str();
    text::contains(e, "send completion request") || text::contains(e, "connection")
        || text::contains(e, "timed out") || text::contains(e, "timeout") || text::contains(
        e,
        "server returned 408",
    ) || text::contains(e, "server returned 429") || text::contains(e, "server returned 500")
        || text::contains(e, "server returned 502") || text::contains(e, "server returned 503")
        || text::contains(e, "server returned 504")
}

/// What follows an attempt that failed: where the error may pass, the seconds to wait
/// and the number of the next attempt; nothing where the turn fails.
pub fn next_attempt(error: &str, attempt: usize) -> (result: Option<(u64, usize)>)
    requires
        attempt < usize::MAX,
    ensures
        result == if is_transient(error@) {
            Some((delay(attempt), (attempt + 1) as usize))
        } else {
            None
        },
{
    if is_retryable(error) {
        Some((retry_delay(attempt), attempt + 1))
    } else {
        None
    }
}

} // verus!
