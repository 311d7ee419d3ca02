//! Sessions as they are kept: names, titles, usage and attachments.
use crate::encoding::{base64_bytes, base64_fault, base64_text, decode_base64, encode_base64};
use crate::order;
use crate::runtime::message::{clone_images, ImageContent, ImageView, Message, MessageView};
use crate::runtime::ReasoningEffort;
use crate::text;
use crate::text::{digits, has_prefix, is_digit, less, lines, trim};
use crate::tool::{ExecutionPlan, PlanView};
use vstd::prelude::*;
use vstd::string::*;

verus! {

/// The model and the effort that a session was set to.
#[derive(Debug, PartialEq)]
pub struct SessionSettings {
    pub model: String,
    pub reasoning_effort: Option<ReasoningEffort>,
}

pub struct SessionSettingsView {
    pub model: Seq<char>,
    pub reasoning_effort: Option<ReasoningEffort>,
}

impl DeepView for SessionSettings {
    type V = SessionSettingsView;

    open spec fn deep_view(&self) -> SessionSettingsView {
        SessionSettingsView { model: self.model@, reasoning_effort: self.reasoning_effort }
    }
}

impl Clone for SessionSettings {
    fn clone(&self) -> (result: Self)
        ensures
            result.deep_view() == self.deep_view(),
    {
        SessionSettings {
            model: self.model.clone(),
            reasoning_effort: self.reasoning_effort,
        }
    }
}

/// What is kept of a session beside its messages. `total_cost` is the bit pattern
/// of a double.
#[derive(Debug, PartialEq)]
pub struct SessionMeta {
    pub name: String,
    pub title: Option<String>,
    pub plan: Option<ExecutionPlan>,
    pub created_at: u64,
    pub total_tokens: u64,
    pub total_cost: u64,
    pub cost_complete: bool,
    pub context_tokens: u64,
    pub compaction_summary: Option<String>,
    pub compacted_through: usize,
    pub approved_tools: Vec<String>,
    pub settings: Option<SessionSettings>,
    /// The directory of the project that the session is about.
    pub project_root: Option<String>,
}

pub struct MetaView {
    pub name: Seq<char>,
    pub title: Option<Seq<char>>,
    pub plan: Option<PlanView>,
    pub created_at: u64,
    pub total_tokens: u64,
    pub total_cost: u64,
    pub cost_complete: bool,
    pub context_tokens: u64,
    pub compaction_summary: Option<Seq<char>>,
    pub compacted_through: usize,
    pub approved_tools: Seq<Seq<char>>,
    pub settings: Option<SessionSettingsView>,
    pub project_root: Option<Seq<char>>,
}

impl DeepView for SessionMeta {
    type V = MetaView;

    open spec fn deep_view(&self) -> MetaView {
        MetaView {
            name: self.name@,
            title: self.title.deep_view(),
            plan: self.plan.deep_view(),
            created_at: self.created_at,
            total_tokens: self.total_tokens,
            total_cost: self.total_cost,
            cost_complete: self.cost_complete,
            context_tokens: self.context_tokens,
            compaction_summary: self.compaction_summary.deep_view(),
            compacted_through: self.compacted_through,
            approved_tools: self.approved_tools.deep_view(),
            settings: self.settings.deep_view(),
            project_root: self.project_root.deep_view(),
        }
    }
}

impl Clone for SessionMeta {
    fn clone(&self) -> (result: Self)
        ensures
            result.deep_view() == self.deep_view(),
    {
        let approved_tools = self.approved_tools.clone();
        assert(approved_tools.deep_view() =~= self.approved_tools.deep_view());
        SessionMeta {
            name: self.name.clone(),
            title: self.title.clone(),
            plan: self.plan.clone(),
            created_at: self.created_at,
            total_tokens: self.total_tokens,
            total_cost: self.total_cost,
            cost_complete: self.cost_complete,
            context_tokens: self.context_tokens,
            compaction_summary: self.compaction_summary.clone(),
            compacted_through: self.compacted_through,
            approved_tools,
            settings: self.settings.clone(),
            project_root: self.project_root.clone(),
        }
    }
}

impl SessionMeta {
    /// A session in which nothing has happened; nothing has cost nothing.
    pub fn new(name: String, created_at: u64) -> (result: Self)
        ensures
            result.deep_view() == (MetaView {
                name: name@,
                title: None,
                plan: None,
                created_at,
                total_tokens: 0,
                total_cost: 0,
                cost_complete: true,
                context_tokens: 0,
                compaction_summary: None,
                compacted_through: 0,
                approved_tools: Seq::empty(),
                settings: None,
                project_root: None,
            }),
    {
        let approved_tools: Vec<String> = Vec::new();
        assert(approved_tools.deep_view() =~= Seq::empty());
        SessionMeta {
            name,
            title: None,
            plan: None,
            created_at,
            total_tokens: 0,
            total_cost: 0,
            cost_complete: true,
            context_tokens: 0,
            compaction_summary: None,
            compacted_through: 0,
            approved_tools,
            settings: None,
            project_root: None,
        }
    }
}

/// A session under a directory of sessions.
#[derive(Debug, PartialEq)]
pub struct Session {
    pub root: String,
    pub meta: SessionMeta,
}

/// The usage of a session behind a request for `tokens` tokens. `charged` is the
/// cost of the session with that request, where the model has a price; once a
/// request had none, the cost is not known any more.
pub open spec fn with_usage(meta: MetaView, tokens: u64, charged: Option<u64>) -> MetaView {
    MetaView {
        total_tokens: (meta.total_tokens + tokens) as u64,
        total_cost: match charged {
            Some(cost) if meta.cost_complete => cost,
            _ => meta.total_cost,
        },
        cost_complete: meta.cost_complete && charged is Some,
        ..meta
    }
}

/// The cost of a session, where it is known and there is any.
pub open spec fn known_cost(meta: MetaView) -> Option<u64> {
    if meta.cost_complete && meta.total_tokens > 0 {
        Some(meta.total_cost)
    } else {
        None
    }
}

/// The name that a session goes by.
pub open spec fn shown_name(title: Option<Seq<char>>, name: Seq<char>) -> Seq<char> {
    match title {
        Some(title) => title,
        None => name,
    }
}

impl Session {
    pub fn record_usage(&mut self, tokens: u64, charged: Option<u64>)
        requires
            old(self).meta.total_tokens + tokens <= u64::MAX,
        ensures
            final(self).root == old(self).root,
            final(self).meta.deep_view() == with_usage(
                old(self).meta.deep_view(),
                tokens,
                charged,
            ),
    {
        self.meta.total_tokens = self.meta.total_tokens + tokens;
        if self.meta.cost_complete {
            match charged {
                Some(cost) => {
                    self.meta.total_cost = cost;
                },
                None => {
                    self.meta.cost_complete = false;
                },
            }
        }
    }

    pub fn total_cost(&self) -> (result: Option<u64>)
        ensures
            result == known_cost(self.meta.deep_view()),
    {
        if self.meta.cost_complete && self.meta.total_tokens > 0 {
            Some(self.meta.total_cost)
        } else {
            None
        }
    }

    pub fn display_name(&self) -> (result: &str)
        ensures
            result@ == shown_name(self.meta.deep_view().title, self.meta.name@),
    {
        match &self.meta.title {
            Some(title) => title.as_str(),
            None => self.meta.name.as_str(),
        }
    }

    /// Whether the session has neither a title nor a name that someone chose.
    pub fn needs_title(&self) -> (result: bool)
        ensures
            result == (self.meta.title is None && auto_named(self.meta.name@)),
    {
        self.meta.title.is_none() && is_auto_name(self.meta.name.as_str())
    }

    pub fn set_title(&mut self, title: String)
        ensures
            final(self).root == old(self).root,
            final(self).meta.deep_view() == (MetaView {
                title: Some(title@),
                ..old(self).meta.deep_view()
            }),
    {
        self.meta.title = Some(title);
    }
}

/// The cost of a session is known exactly as long as every request had a price.
pub proof fn cost_law(meta: MetaView, tokens: u64, charged: Option<u64>)
    requires
        meta.total_tokens + tokens <= u64::MAX,
        tokens > 0,
    ensures
        known_cost(with_usage(meta, tokens, charged)) is Some <==> meta.cost_complete
            && charged is Some,
        !meta.cost_complete ==> known_cost(with_usage(meta, tokens, charged)) is None,
        meta.cost_complete && charged is Some ==> known_cost(with_usage(meta, tokens, charged))
            == charged,
        with_usage(meta, tokens, charged).cost_complete ==> meta.cost_complete,
{
}

// ---------------------------------------------------------------------------
// Names
// ---------------------------------------------------------------------------

/// A name that stands for one directory.
pub open spec fn is_name(name: Seq<char>) -> bool {
    &&& name.len() > 0
    &&& !name.contains('/')
    &&& name != "."@
    &&& name != ".."@
}

/// The name without white space round it, if it stands for one directory.
pub fn clean_name(name: &str) -> (result: Result<String, String>)
    ensures
        match result {
            Ok(clean) => is_name(trim(name@)) && clean@ == trim(name@),
            Err(error) => !is_name(trim(name@)) && error@ == "invalid session name"@,
        },
{
    let name = text::trimmed(name);
    if name.as_str().is_empty() || text::contains_char(name.as_str(), '/') || text::same(
        name.as_str(),
        ".",
    ) || text::same(name.as_str(), "..") {
        return Err("invalid session name".to_owned());
    }
    Ok(name)
}

/// A name that was made from the time.
pub open spec fn auto_named(name: Seq<char>) -> bool {
    let rest = name.skip("session-"@.len() as int);
    &&& has_prefix(name, "session-"@)
    &&& rest.len() > 0
    &&& forall|i: int| 0 <= i < rest.len() ==> is_digit(#[trigger] rest[i])
}

/// The name of a session that was begun at `now` and was given none.
pub fn auto_name(now: u64) -> (name: String)
    ensures
        name@ == "session-"@ + digits(now as nat),
{
    let count = text::decimal(now);
    text::join_two("session-", count.as_str())
}

pub fn is_auto_name(name: &str) -> (result: bool)
    ensures
        result == auto_named(name@),
{
    match text::strip_prefix(name, "session-") {
        Some(rest) => {
            let chars = text::to_chars(rest.as_str());
            if chars.len() == 0 {
                return false;
            }
            let mut i: usize = 0;
            while i < chars.len()
                invariant
                    chars@ == rest@,
                    rest@ == name@.skip("session-"@.len() as int),
                    i <= chars@.len(),
                    forall|k: int| 0 <= k < i ==> is_digit(#[trigger] rest@[k]),
                decreases chars@.len() - i,
            {
                let n: u32 = chars[i] as u32;
                if n < 48 || n > 57 {
                    assert(!is_digit(rest@[i as int]));
                    return false;
                }
                i += 1;
            }
            true
        },
        None => false,
    }
}

proof fn digits_are_digits(n: nat)
    ensures
        forall|i: int| 0 <= i < digits(n).len() ==> is_digit(#[trigger] digits(n)[i]),
        digits(n).len() > 0,
    decreases n,
{
    if n >= 10 {
        digits_are_digits(n / 10);
    }
}

/// A name made from the time is known as one, and is a name.
pub proof fn auto_name_law(now: u64)
    ensures
        auto_named("session-"@ + digits(now as nat)),
        is_name("session-"@ + digits(now as nat)),
{
    let d = digits(now as nat);
    let name = "session-"@ + d;
    digits_are_digits(now as nat);
    reveal_strlit("session-");
    reveal_strlit(".");
    reveal_strlit("..");
    assert(name.subrange(0, 8) =~= "session-"@);
    assert(name.skip(8) =~= d);
    assert(name.len() > 8);
    assert forall|i: int| 0 <= i < name.len() implies name[i] != '/' by {
        if i >= 8 {
            assert(is_digit(d[i - 8]));
        }
    }
}

/// The name of the session to open: the one asked for, else one made from the time.
pub fn session_name(asked: Option<String>, now: u64) -> (result: Result<String, String>)
    ensures
        match asked {
            Some(name) => match result {
                Ok(clean) => is_name(trim(name@)) && clean@ == trim(name@),
                Err(error) => !is_name(trim(name@)) && error@ == "invalid session name"@,
            },
            None => result is Ok && result->Ok_0@ == "session-"@ + digits(now as nat),
        },
{
    match asked {
        Some(name) => clean_name(name.as_str()),
        None => Ok(auto_name(now)),
    }
}

/// The names that tools have now, for names that they had.
pub open spec fn current_tool(name: Seq<char>) -> Seq<char> {
    if name == "grep"@ {
        "search_files"@
    } else if name == "glob"@ {
        "list_files"@
    } else {
        name
    }
}

/// Gives the approved tools of an older session the names that they have now.
pub fn rename_approved_tools(tools: &mut Vec<String>)
    ensures
        final(tools).deep_view() == old(tools).deep_view().map_values(
            |t: Seq<char>| current_tool(t),
        ),
{
    let ghost before = tools.deep_view();
    let mut i: usize = 0;
    while i < tools.len()
        invariant
            i <= tools@.len(),
            tools@.len() == before.len(),
            forall|k: int| 0 <= k < i ==> (#[trigger] tools@[k])@ == current_tool(before[k]),
            forall|k: int| i <= k < tools@.len() ==> (#[trigger] tools@[k])@ == before[k],
        decreases tools@.len() - i,
    {
        if text::same(tools[i].as_str(), "grep") {
            tools[i] = "search_files".to_owned();
        } else if text::same(tools[i].as_str(), "glob") {
            tools[i] = "list_files".to_owned();
        }
        i += 1;
    }
    assert(tools.deep_view() =~= before.map_values(|t: Seq<char>| current_tool(t)));
}

// ---------------------------------------------------------------------------
// Lists of sessions
// ---------------------------------------------------------------------------

/// One row of a list of sessions.
#[derive(Debug, PartialEq)]
pub struct SessionInfo {
    pub name: String,
    pub title: Option<String>,
    pub created_at: u64,
    pub first_message: Option<String>,
}

pub struct InfoView {
    pub name: Seq<char>,
    pub title: Option<Seq<char>>,
    pub created_at: u64,
    pub first_message: Option<Seq<char>>,
}

impl DeepView for SessionInfo {
    type V = InfoView;

    open spec fn deep_view(&self) -> InfoView {
        InfoView {
            name: self.name@,
            title: self.title.deep_view(),
            created_at: self.created_at,
            first_message: self.first_message.deep_view(),
        }
    }
}

impl Clone for SessionInfo {
    fn clone(&self) -> (result: Self)
        ensures
            result.deep_view() == self.deep_view(),
    {
        SessionInfo {
            name: self.name.clone(),
            title: self.title.clone(),
            created_at: self.created_at,
            first_message: self.first_message.clone(),
        }
    }
}

impl SessionInfo {
    pub fn display_name(&self) -> (result: &str)
        ensures
            result@ == shown_name(self.title.deep_view(), self.name@),
    {
        match &self.title {
            Some(title) => title.as_str(),
            None => self.name.as_str(),
        }
    }
}

/// The most recent session first; of two as old, the one whose name comes first.
pub open spec fn info_before(a: InfoView, b: InfoView) -> bool {
    a.created_at > b.created_at || (a.created_at == b.created_at && less(a.name, b.name))
}

/// The sessions, most recent first.
pub fn sort_sessions(sessions: Vec<SessionInfo>) -> (result: Vec<SessionInfo>)
    ensures
        result.deep_view() == order::sorted(
            sessions.deep_view(),
            |a: InfoView, b: InfoView| info_before(a, b),
        ),
{
    order::stable_sort(
        sessions,
        comes_before,
        Ghost(|a: InfoView, b: InfoView| info_before(a, b)),
    )
}

fn comes_before(a: &SessionInfo, b: &SessionInfo) -> (result: bool)
    ensures
        result == info_before(a.deep_view(), b.deep_view()),
{
    a.created_at > b.created_at || (a.created_at == b.created_at && text::is_less(
        a.name.as_str(),
        b.name.as_str(),
    ))
}

/// The list of sessions holds what was found, no older session in front of a
/// younger one, and names in order among those as old.
pub proof fn sort_sessions_law(sessions: Seq<InfoView>)
    ensures
        ({
            let list = order::sorted(sessions, |a: InfoView, b: InfoView| info_before(a, b));
            &&& list.to_multiset() == sessions.to_multiset()
            &&& forall|i: int, j: int|
                0 <= i < j < list.len() ==> (#[trigger] list[i]).created_at >= (
                #[trigger] list[j]).created_at
            &&& forall|i: int, j: int|
                0 <= i < j < list.len() && (#[trigger] list[i]).created_at == (
                #[trigger] list[j]).created_at ==> !less(list[j].name, list[i].name)
        }),
{
    let before = |a: InfoView, b: InfoView| info_before(a, b);
    assert forall|a: InfoView, b: InfoView| #[trigger] before(a, b) implies !before(b, a) by {
        text::less_is_total(a.name, b.name);
    }
    assert forall|a: InfoView, b: InfoView, c: InfoView|
        #[trigger] before(a, c) implies before(a, b) || #[trigger] before(b, c) by {
        text::less_is_total(a.name, b.name);
        text::less_is_total(b.name, c.name);
        if less(b.name, a.name) && less(a.name, c.name) {
            text::less_is_transitive(b.name, a.name, c.name);
        }
    }
    order::sorted_law(sessions, before);
    let list = order::sorted(sessions, before);
    assert forall|i: int, j: int| 0 <= i < j < list.len() implies (
    #[trigger] list[i]).created_at >= (#[trigger] list[j]).created_at && ((list[i].created_at
        == list[j].created_at) ==> !less(list[j].name, list[i].name)) by {
        assert(!before(list[j], list[i]));
    }
}

/// The lines of a file of records that hold anything.
pub open spec fn record_lines(data: Seq<char>) -> Seq<Seq<char>> {
    lines(data).filter(|line: Seq<char>| trim(line).len() > 0)
}

/// The lines of a file of records that hold anything.
pub fn records(data: &str) -> (result: Vec<String>)
    ensures
        result.deep_view() == record_lines(data@),
{
    let all = text::split_lines(data);
    let ghost view = all.deep_view();
    let ghost keep = |line: Seq<char>| trim(line).len() > 0;
    let mut result: Vec<String> = Vec::new();
    let mut i: usize = 0;
    assert(result.deep_view() =~= view.take(0).filter(keep)) by {
        reveal(Seq::filter);
    }
    while i < all.len()
        invariant
            view == all.deep_view(),
            keep == (|line: Seq<char>| trim(line).len() > 0),
            i <= all@.len(),
            result.deep_view() == view.take(i as int).filter(keep),
        decreases all@.len() - i,
    {
        let ghost before = result.deep_view();
        let trimmed = text::trimmed(all[i].as_str());
        proof {
            assert(view.take(i + 1).drop_last() =~= view.take(i as int));
            reveal(Seq::filter);
        }
        if !trimmed.as_str().is_empty() {
            result.push(all[i].clone());
            proof {
                assert(result.deep_view() =~= before.push(view[i as int]));
            }
        }
        i += 1;
    }
    assert(view.take(i as int) =~= view);
    result
}

/// A message of the user that says something.
pub open spec fn is_user_text(message: MessageView) -> bool {
    match message {
        MessageView::User { content, .. } => trim(content).len() > 0,
        _ => false,
    }
}

/// The first text of the user.
pub open spec fn first_text(messages: Seq<MessageView>) -> Option<Seq<char>>
    decreases messages.len(),
{
    if messages.len() == 0 {
        None
    } else if is_user_text(messages[0]) {
        Some(messages[0].content())
    } else {
        first_text(messages.skip(1))
    }
}

/// The first text of the user in `messages`.
pub fn first_user_message(messages: &Vec<Message>) -> (result: Option<String>)
    ensures
        result.deep_view() == first_text(messages.deep_view()),
{
    let ghost all = messages.deep_view();
    let mut i: usize = 0;
    assert(all.skip(0) =~= all);
    while i < messages.len()
        invariant
            all == messages.deep_view(),
            i <= messages@.len(),
            first_text(all.skip(i as int)) == first_text(all),
        decreases messages@.len() - i,
    {
        proof {
            assert(all.skip(i as int)[0] == messages@[i as int].deep_view());
            assert(all.skip(i as int).skip(1) =~= all.skip(i + 1));
        }
        if let Message::User { content, .. } = &messages[i] {
            let trimmed = text::trimmed(content.as_str());
            if !trimmed.as_str().is_empty() {
                return Some(content.clone());
            }
        }
        i += 1;
    }
    None
}

// ---------------------------------------------------------------------------
// Attachments
// ---------------------------------------------------------------------------

/// The file extension of an image.
pub open spec fn extension(mime_type: Seq<char>) -> Seq<char> {
    if mime_type == "image/jpeg"@ {
        "jpg"@
    } else if mime_type == "image/gif"@ {
        "gif"@
    } else if mime_type == "image/webp"@ {
        "webp"@
    } else {
        "png"@
    }
}

/// Where an image is kept: a file of its own below the session's directory.
pub open spec fn attachment(
    now: u64,
    process: u32,
    message: usize,
    image: usize,
    mime_type: Seq<char>,
) -> Seq<char> {
    "attachments/"@ + digits(now as nat) + "-"@ + digits(process as nat) + "-"@ + digits(
        message as nat,
    ) + "-"@ + digits(image as nat) + "."@ + extension(mime_type)
}

/// Where an image is kept.
pub fn attachment_path(
    now: u64,
    process: u32,
    message: usize,
    image: usize,
    mime_type: &str,
) -> (path: String)
    ensures
        path@ == attachment(now, process, message, image, mime_type@),
{
    let ending = if text::same(mime_type, "image/jpeg") {
        "jpg"
    } else if text::same(mime_type, "image/gif") {
        "gif"
    } else if text::same(mime_type, "image/webp") {
        "webp"
    } else {
        "png"
    };
    let mut path = "attachments/".to_owned();
    path.append(text::decimal(now).as_str());
    path.append("-");
    path.append(text::decimal(process as u64).as_str());
    path.append("-");
    path.append(text::decimal(message as u64).as_str());
    path.append("-");
    path.append(text::decimal(image as u64).as_str());
    path.append(".");
    path.append(ending);
    path
}

/// The images of a message: those of the user, or that of a tool.
pub open spec fn images_of(message: MessageView) -> Seq<ImageView> {
    match message {
        MessageView::User { images, .. } => images,
        MessageView::Steer { images, .. } => images,
        MessageView::Tool { image: Some(image), .. } => seq![image],
        _ => Seq::empty(),
    }
}

/// The same message with other images.
pub open spec fn with_images(message: MessageView, images: Seq<ImageView>) -> MessageView {
    match message {
        MessageView::User { content, .. } => MessageView::User { content, images },
        MessageView::Steer { content, .. } => MessageView::Steer { content, images },
        MessageView::Tool { call_id, content, image: Some(_), diff } => MessageView::Tool {
            call_id,
            content,
            image: Some(images[0]),
            diff,
        },
        _ => message,
    }
}

/// The images of a message.
pub fn message_images(message: &Message) -> (result: Vec<ImageContent>)
    ensures
        result.deep_view() == images_of(message.deep_view()),
{
    match message {
        Message::User { images, .. } => clone_images(images),
        Message::Steer { images, .. } => clone_images(images),
        Message::Tool { image: Some(image), .. } => {
            let mut result: Vec<ImageContent> = Vec::new();
            result.push(image.clone());
            assert(result.deep_view() =~= seq![image.deep_view()]);
            result
        },
        _ => {
            let result: Vec<ImageContent> = Vec::new();
            assert(result.deep_view() =~= Seq::empty());
            result
        },
    }
}

/// Puts other images into a message.
pub fn set_message_images(message: &mut Message, images: Vec<ImageContent>)
    requires
        images@.len() == images_of(old(message).deep_view()).len(),
    ensures
        final(message).deep_view() == with_images(old(message).deep_view(), images.deep_view()),
{
    let mut new_images = images;
    match message {
        Message::User { images, .. } => {
            *images = new_images;
        },
        Message::Steer { images, .. } => {
            *images = new_images;
        },
        Message::Tool { image, .. } => {
            if image.is_some() {
                *image = Some(new_images.swap_remove(0));
            }
        },
        _ => {},
    }
}

/// The file of an image that is not kept yet: where it goes and what it holds.
#[derive(Debug, PartialEq)]
pub enum Persist {
    /// The image has a file.
    Kept,
    Write { path: String, bytes: Vec<u8> },
}

/// The bytes of an image; `None` where its data are not those of one.
pub fn image_bytes(image: &ImageContent) -> (result: Option<Vec<u8>>)
    ensures
        result.deep_view() == base64_bytes(image.data@),
{
    match decode_base64(image.data.as_str()) {
        Ok(bytes) => {
            assert(bytes.deep_view() =~= bytes@);
            Some(bytes)
        },
        Err(_) => None,
    }
}

/// What is to be done to keep an image. What the file holds reads back as the data of
/// the image.
pub fn persist_image(
    image: &ImageContent,
    now: u64,
    process: u32,
    message: usize,
    index: usize,
) -> (result: Result<Persist, String>)
    ensures
        match result {
            Ok(Persist::Kept) => image.path is Some,
            Ok(Persist::Write { path, bytes }) => {
                &&& image.path is None
                &&& path@ == attachment(now, process, message, index, image.mime_type@)
                &&& base64_bytes(image.data@) == Some(bytes@)
                &&& base64_text(bytes@) == image.data@
            },
            Err(error) => {
                &&& image.path is None
                &&& base64_bytes(image.data@) is None
                &&& error@ == "decode image attachment: "@ + base64_fault(image.data@)
            },
        },
{
    if image.path.is_some() {
        return Ok(Persist::Kept);
    }
    match decode_base64(image.data.as_str()) {
        Ok(bytes) => Ok(
            Persist::Write {
                path: attachment_path(now, process, message, index, image.mime_type.as_str()),
                bytes,
            },
        ),
        Err(fault) => Err(text::join_two("decode image attachment: ", fault.as_str())),
    }
}

/// One part of a path.
#[derive(Clone, Copy, Debug, PartialEq, Eq, Structural)]
pub enum PathPart {
    /// A drive or the root.
    Root,
    Current,
    Parent,
    Normal,
}

/// A path that stays below where it starts.
pub open spec fn stays_below(absolute: bool, parts: Seq<PathPart>) -> bool {
    !absolute && !parts.contains(PathPart::Parent)
}

/// The file to read for an image that has no data.
#[derive(Debug, PartialEq)]
pub enum Hydrate {
    /// The image has its data.
    Loaded,
    Read { path: String },
}

/// What is to be done to have the data of an image. `absolute` and `parts` tell of
/// the path of the image, where it has one.
pub fn hydrate_image(image: &ImageContent, absolute: bool, parts: &Vec<PathPart>) -> (result: Result<
    Hydrate,
    String,
>)
    ensures
        match result {
            Ok(Hydrate::Loaded) => image.data@.len() > 0,
            Ok(Hydrate::Read { path }) => {
                &&& image.data@.len() == 0
                &&& image.path.deep_view() == Some(path@)
                &&& stays_below(absolute, parts@)
            },
            Err(error) => {
                &&& image.data@.len() == 0
                &&& match image.path.deep_view() {
                    None => error@ == "image attachment has no path"@,
                    Some(path) => !stays_below(absolute, parts@) && error@
                        == "invalid image attachment path: "@ + path,
                }
            },
        },
{
    if !image.data.as_str().is_empty() {
        return Ok(Hydrate::Loaded);
    }
    match &image.path {
        None => Err("image attachment has no path".to_owned()),
        Some(path) => {
            let mut valid = !absolute;
            let mut i: usize = 0;
            while i < parts.len()
                invariant
                    i <= parts@.len(),
                    valid == (!absolute && !parts@.take(i as int).contains(PathPart::Parent)),
                decreases parts@.len() - i,
            {
                proof {
                    let a = parts@.take(i as int);
                    let b = parts@.take(i + 1);
                    assert(b =~= a.push(parts@[i as int]));
                    if a.contains(PathPart::Parent) {
                        let k = choose|k: int| 0 <= k < a.len() && a[k] == PathPart::Parent;
                        assert(b[k] == PathPart::Parent);
                    }
                    if parts@[i as int] == PathPart::Parent {
                        assert(b[i as int] == PathPart::Parent);
                    }
                    if b.contains(PathPart::Parent) && parts@[i as int] != PathPart::Parent {
                        let k = choose|k: int| 0 <= k < b.len() && b[k] == PathPart::Parent;
                        assert(a[k] == PathPart::Parent);
                    }
                }
                if parts[i] == PathPart::Parent {
                    valid = false;
                }
                i += 1;
            }
            assert(parts@.take(i as int) =~= parts@);
            if valid {
                Ok(Hydrate::Read { path: path.clone() })
            } else {
                Err(text::join_two("invalid image attachment path: ", path.as_str()))
            }
        },
    }
}

/// The data of an image from the bytes of its file.
pub fn image_data(bytes: &Vec<u8>) -> (data: String)
    requires
        bytes@.len() <= usize::MAX / 4,
    ensures
        data@ == base64_text(bytes@),
        base64_bytes(data@) == Some(bytes@),
{
    encode_base64(bytes)
}

} // verus!
