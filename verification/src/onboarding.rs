//! The first setup: a line that is typed, a choice, and what providers are called.
use crate::config::{
    default_config, Config, ConfigView, ModelConfig, ModelView, ProviderConfig, ProviderView,
};
use crate::model_catalog::{
    config_of, is_chat_model, model_config, prioritize_openai_models, priority_law, rank_order,
    supports_chat_completions,
};
use crate::order;
use crate::text;
use crate::text::{
    index_of, is_control_char, is_letter_or_digit, lower, trim, trim_end_char,
};
use crate::web_url::{has_web_scheme, is_web, parse_url, read_url, url_fault};
use vstd::prelude::*;
use vstd::string::*;

verus! {

// ---------------------------------------------------------------------------
// Words
// ---------------------------------------------------------------------------

/// The place in front of the characters before `cursor` of one kind: of words, or
/// between words.
pub open spec fn back_over(value: Seq<char>, cursor: int, words: bool) -> int
    decreases cursor,
{
    if 0 < cursor <= value.len() && is_letter_or_digit(value[cursor - 1]) == words {
        back_over(value, cursor - 1, words)
    } else {
        cursor
    }
}

/// The place behind the characters from `cursor` on of one kind.
pub open spec fn forth_over(value: Seq<char>, cursor: int, words: bool) -> int
    decreases value.len() - cursor,
{
    if 0 <= cursor < value.len() && is_letter_or_digit(value[cursor]) == words {
        forth_over(value, cursor + 1, words)
    } else {
        cursor
    }
}

/// The beginning of the word before `cursor`.
pub open spec fn word_before(value: Seq<char>, cursor: int) -> int {
    back_over(value, back_over(value, cursor, false), true)
}

/// The beginning of the word behind `cursor`.
pub open spec fn word_behind(value: Seq<char>, cursor: int) -> int {
    forth_over(value, forth_over(value, cursor, true), false)
}

fn skip_back(value: &Vec<char>, from: usize, words: bool) -> (cursor: usize)
    requires
        from <= value@.len(),
    ensures
        cursor == back_over(value@, from as int, words),
        cursor <= from,
{
    let mut cursor: usize = from;
    while cursor > 0 && text::is_alphanumeric(value[cursor - 1]) == words
        invariant
            cursor <= from <= value@.len(),
            back_over(value@, from as int, words) == back_over(value@, cursor as int, words),
        decreases cursor,
    {
        cursor -= 1;
    }
    cursor
}

fn skip_forth(value: &Vec<char>, from: usize, words: bool) -> (cursor: usize)
    ensures
        cursor == forth_over(value@, from as int, words),
        from <= cursor,
        from <= value@.len() ==> cursor <= value@.len(),
{
    let mut cursor: usize = from;
    while cursor < value.len() && text::is_alphanumeric(value[cursor]) == words
        invariant
            from <= cursor,
            from <= value@.len() ==> cursor <= value@.len(),
            forth_over(value@, from as int, words) == forth_over(value@, cursor as int, words),
        decreases value@.len() - cursor,
    {
        cursor += 1;
    }
    cursor
}

/// The beginning of the word before `cursor`.
pub fn previous_word(value: &Vec<char>, cursor: usize) -> (result: usize)
    requires
        cursor <= value@.len(),
    ensures
        result == word_before(value@, cursor as int),
        result <= cursor,
{
    let gap: usize = skip_back(value, cursor, false);
    skip_back(value, gap, true)
}

/// The beginning of the word behind `cursor`.
pub fn next_word(value: &Vec<char>, cursor: usize) -> (result: usize)
    ensures
        result == word_behind(value@, cursor as int),
        cursor <= result,
        cursor <= value@.len() ==> result <= value@.len(),
{
    let gap: usize = skip_forth(value, cursor, true);
    skip_forth(value, gap, false)
}

// ---------------------------------------------------------------------------
// A line that is typed
// ---------------------------------------------------------------------------

/// A key.
#[derive(Clone, Copy, Debug, PartialEq, Eq, Structural)]
pub enum Key {
    Enter,
    Esc,
    Char(char),
    Backspace,
    Delete,
    Left,
    Right,
    Home,
    Up,
    End,
    Down,
    Tab,
    Other,
}

/// What the user does at the keyboard.
#[derive(Debug, PartialEq)]
pub enum Input {
    Key { key: Key, control: bool, alt: bool },
    Paste(String),
}

/// What comes of it.
#[derive(Clone, Copy, Debug, PartialEq, Eq, Structural)]
pub enum Edited {
    Open,
    Done,
    Cancelled,
}

/// A line and the place in it.
#[derive(Debug, PartialEq)]
pub struct LineEditor {
    pub value: Vec<char>,
    pub cursor: usize,
}

pub struct LineView {
    pub value: Seq<char>,
    pub cursor: int,
}

impl View for LineEditor {
    type V = LineView;

    open spec fn view(&self) -> LineView {
        LineView { value: self.value@, cursor: self.cursor as int }
    }
}

/// The characters of a text that can stand in a line.
pub open spec fn printable(s: Seq<char>) -> Seq<char>
    decreases s.len(),
{
    if s.len() == 0 {
        s
    } else if is_control_char(s.last()) {
        printable(s.drop_last())
    } else {
        printable(s.drop_last()).push(s.last())
    }
}

/// A line with another text in the place of `from..to`, and the cursor behind it.
pub open spec fn spliced(line: LineView, from: int, to: int, inserted: Seq<char>) -> LineView {
    LineView {
        value: line.value.take(from) + inserted + line.value.skip(to),
        cursor: from + inserted.len(),
    }
}

/// A line with the cursor elsewhere.
pub open spec fn moved(line: LineView, cursor: int) -> LineView {
    LineView { cursor, ..line }
}

/// A line behind a key.
pub open spec fn after_key(line: LineView, key: Key, control: bool, alt: bool) -> LineView {
    let end = line.value.len() as int;
    match key {
        Key::Char(c) => if control {
            if c == 'a' {
                moved(line, 0)
            } else if c == 'e' {
                moved(line, end)
            } else if c == 'u' {
                spliced(line, 0, line.cursor, Seq::empty())
            } else if c == 'w' {
                spliced(line, word_before(line.value, line.cursor), line.cursor, Seq::empty())
            } else {
                line
            }
        } else {
            spliced(line, line.cursor, line.cursor, seq![c])
        },
        Key::Backspace => if line.cursor > 0 {
            spliced(line, line.cursor - 1, line.cursor, Seq::empty())
        } else {
            line
        },
        Key::Delete => if line.cursor < end {
            spliced(line, line.cursor, line.cursor + 1, Seq::empty())
        } else {
            line
        },
        Key::Left => if alt {
            moved(line, word_before(line.value, line.cursor))
        } else if line.cursor > 0 {
            moved(line, line.cursor - 1)
        } else {
            line
        },
        Key::Right => if alt {
            moved(line, word_behind(line.value, line.cursor))
        } else if line.cursor < end {
            moved(line, line.cursor + 1)
        } else {
            line
        },
        Key::Home => moved(line, 0),
        Key::Up => moved(line, 0),
        Key::End => moved(line, end),
        Key::Down => moved(line, end),
        _ => line,
    }
}

/// What comes of a key.
pub open spec fn outcome(key: Key, control: bool) -> Edited {
    match key {
        Key::Enter => Edited::Done,
        Key::Esc => Edited::Cancelled,
        Key::Char(c) => if control && c == 'c' {
            Edited::Cancelled
        } else {
            Edited::Open
        },
        _ => Edited::Open,
    }
}

fn keep_printable(pasted: &str) -> (result: Vec<char>)
    ensures
        result@ == printable(pasted@),
{
    let chars = text::to_chars(pasted);
    let mut result: Vec<char> = Vec::new();
    let mut i: usize = 0;
    assert(result@ =~= printable(chars@.take(0)));
    while i < chars.len()
        invariant
            i <= chars@.len(),
            result@ == printable(chars@.take(i as int)),
        decreases chars@.len() - i,
    {
        proof {
            assert(chars@.take(i + 1).drop_last() =~= chars@.take(i as int));
            assert(chars@.take(i + 1).last() == chars@[i as int]);
        }
        if !text::is_control(chars[i]) {
            result.push(chars[i]);
        }
        i += 1;
    }
    assert(chars@.take(i as int) =~= chars@);
    result
}

impl LineEditor {
    /// The cursor stands in the line or at its end.
    pub open spec fn wf(&self) -> bool {
        self.cursor <= self.value@.len()
    }

    /// A line with a text in it, and the cursor at its end.
    pub fn new(text: &str) -> (editor: LineEditor)
        ensures
            editor.wf(),
            editor@ == (LineView { value: text@, cursor: text@.len() as int }),
    {
        let value = text::to_chars(text);
        let cursor: usize = value.len();
        LineEditor { value, cursor }
    }

    fn splice(&mut self, from: usize, to: usize, inserted: &Vec<char>)
        requires
            from <= to <= old(self).value@.len(),
        ensures
            final(self).wf(),
            final(self)@ == spliced(old(self)@, from as int, to as int, inserted@),
    {
        let ghost before = self.value@;
        let mut value: Vec<char> = Vec::new();
        let mut i: usize = 0;
        while i < from
            invariant
                i <= from <= self.value@.len(),
                value@ == self.value@.take(i as int),
            decreases from - i,
        {
            value.push(self.value[i]);
            assert(self.value@.take(i + 1) =~= self.value@.take(i as int).push(
                self.value@[i as int],
            ));
            i += 1;
        }
        value.extend_from_slice(inserted.as_slice());
        let cursor: usize = value.len();
        let ghost head = before.take(from as int) + inserted@;
        assert(value@ =~= head);
        let mut k: usize = to;
        assert(head + before.subrange(to as int, to as int) =~= head);
        while k < self.value.len()
            invariant
                before == self.value@,
                to <= k <= self.value@.len(),
                value@ == head + before.subrange(to as int, k as int),
            decreases self.value@.len() - k,
        {
            value.push(self.value[k]);
            assert(head + before.subrange(to as int, k + 1) =~= (head + before.subrange(
                to as int,
                k as int,
            )).push(before[k as int]));
            k += 1;
        }
        assert(before.subrange(to as int, k as int) =~= before.skip(to as int));
        self.value = value;
        self.cursor = cursor;
    }

    /// The user did something at the keyboard.
    pub fn apply(&mut self, input: &Input) -> (result: Edited)
        requires
            old(self).wf(),
        ensures
            final(self).wf(),
            match *input {
                Input::Key { key, control, alt } => {
                    &&& result == outcome(key, control)
                    &&& final(self)@ == if result == Edited::Open {
                        after_key(old(self)@, key, control, alt)
                    } else {
                        old(self)@
                    }
                },
                Input::Paste(pasted) => {
                    &&& result == Edited::Open
                    &&& final(self)@ == spliced(
                        old(self)@,
                        old(self).cursor as int,
                        old(self).cursor as int,
                        printable(pasted@),
                    )
                },
            },
    {
        let (key, control, alt) = match input {
            Input::Key { key, control, alt } => (*key, *control, *alt),
            Input::Paste(pasted) => {
                let kept = keep_printable(pasted.as_str());
                self.splice(self.cursor, self.cursor, &kept);
                return Edited::Open;
            },
        };
        let none: Vec<char> = Vec::new();
        assert(none@ =~= Seq::empty());
        match key {
            Key::Enter => {
                return Edited::Done;
            },
            Key::Esc => {
                return Edited::Cancelled;
            },
            Key::Char(c) => {
                if control {
                    if c == 'c' {
                        return Edited::Cancelled;
                    } else if c == 'a' {
                        self.cursor = 0;
                    } else if c == 'e' {
                        self.cursor = self.value.len();
                    } else if c == 'u' {
                        self.splice(0, self.cursor, &none);
                    } else if c == 'w' {
                        let start: usize = previous_word(&self.value, self.cursor);
                        self.splice(start, self.cursor, &none);
                    }
                } else {
                    let mut one: Vec<char> = Vec::new();
                    one.push(c);
                    assert(one@ =~= seq![c]);
                    self.splice(self.cursor, self.cursor, &one);
                }
            },
            Key::Backspace => {
                if self.cursor > 0 {
                    self.splice(self.cursor - 1, self.cursor, &none);
                }
            },
            Key::Delete => {
                if self.cursor < self.value.len() {
                    self.splice(self.cursor, self.cursor + 1, &none);
                }
            },
            Key::Left => {
                if alt {
                    self.cursor = previous_word(&self.value, self.cursor);
                } else if self.cursor > 0 {
                    self.cursor = self.cursor - 1;
                }
            },
            Key::Right => {
                if alt {
                    self.cursor = next_word(&self.value, self.cursor);
                } else if self.cursor < self.value.len() {
                    self.cursor = self.cursor + 1;
                }
            },
            Key::Home => {
                self.cursor = 0;
            },
            Key::Up => {
                self.cursor = 0;
            },
            Key::End => {
                self.cursor = self.value.len();
            },
            Key::Down => {
                self.cursor = self.value.len();
            },
            _ => {},
        }
        Edited::Open
    }

    /// The line.
    pub fn text(&self) -> (text: String)
        ensures
            text@ == self@.value,
    {
        assert(self.value@.subrange(0, self.value@.len() as int) =~= self.value@);
        text::from_chars(&self.value, 0, self.value.len())
    }
}

/// What was typed can be taken back: a character and a backspace leave the line as it
/// was.
pub proof fn backspace_law(line: LineView, c: char)
    requires
        0 <= line.cursor <= line.value.len(),
    ensures
        after_key(after_key(line, Key::Char(c), false, false), Key::Backspace, false, false)
            == line,
{
    let typed = after_key(line, Key::Char(c), false, false);
    let back = after_key(typed, Key::Backspace, false, false);
    assert(typed.value.take(line.cursor) =~= line.value.take(line.cursor));
    assert(typed.value.skip(line.cursor + 1) =~= line.value.skip(line.cursor));
    assert(back.value =~= line.value);
}

/// A line on the screen behind a label, and the column of the cursor. What is secret
/// is shown as dots.
pub fn draw_input(label: &str, editor: &LineEditor, secret: bool) -> (result: (String, String, u16))
    ensures
        result.0@ == "  "@ + label@ + ": "@,
        result.1@ == if secret {
            Seq::new(editor.value@.len(), |i: int| '\u{2022}')
        } else {
            editor.value@
        },
        result.2 == if label@.len() + 4 + editor.cursor < u16::MAX {
            label@.len() + 4 + editor.cursor
        } else {
            u16::MAX as int
        },
{
    let prompt = text::join_three("  ", label, ": ");
    proof {
        reveal_strlit("  ");
        reveal_strlit(": ");
    }
    let shown = if secret {
        let mut dots: Vec<char> = Vec::new();
        let mut i: usize = 0;
        while i < editor.value.len()
            invariant
                i <= editor.value@.len(),
                dots@ == Seq::new(i as nat, |k: int| '\u{2022}'),
            decreases editor.value@.len() - i,
        {
            dots.push('\u{2022}');
            i += 1;
            assert(dots@ =~= Seq::new(i as nat, |k: int| '\u{2022}'));
        }
        let size: usize = dots.len();
        assert(dots@.subrange(0, size as int) =~= dots@);
        let written = text::from_chars(&dots, 0, size);
        assert(written@ =~= Seq::new(editor.value@.len(), |k: int| '\u{2022}'));
        written
    } else {
        editor.text()
    };
    let width: usize = text::to_chars(prompt.as_str()).len();
    let column: u16 = if width < 65_535 && editor.cursor < 65_535 - width {
        (width + editor.cursor) as u16
    } else {
        u16::MAX
    };
    (prompt, shown, column)
}

// ---------------------------------------------------------------------------
// A choice
// ---------------------------------------------------------------------------

/// What a key does to a choice: it stays open with one side chosen, or it is made, or
/// the setup is cancelled.
#[derive(Clone, Copy, Debug, PartialEq, Eq, Structural)]
pub enum Choice {
    Open(bool),
    Made(bool),
    Cancelled,
}

/// What a key does to a choice of which `selected` is chosen.
pub fn choose_key(selected: bool, key: Key, control: bool) -> (result: Choice)
    ensures
        result == match key {
            Key::Enter => Choice::Made(selected),
            Key::Esc => Choice::Cancelled,
            Key::Char(c) => if control && c == 'c' {
                Choice::Cancelled
            } else if c == 'y' || c == 'Y' {
                Choice::Made(true)
            } else if c == 'n' || c == 'N' {
                Choice::Made(false)
            } else {
                Choice::Open(selected)
            },
            Key::Left => Choice::Open(true),
            Key::Up => Choice::Open(true),
            Key::Home => Choice::Open(true),
            Key::Right => Choice::Open(false),
            Key::Down => Choice::Open(false),
            Key::End => Choice::Open(false),
            Key::Tab => Choice::Open(false),
            _ => Choice::Open(selected),
        },
{
    match key {
        Key::Enter => Choice::Made(selected),
        Key::Esc => Choice::Cancelled,
        Key::Char(c) => if control && c == 'c' {
            Choice::Cancelled
        } else if c == 'y' || c == 'Y' {
            Choice::Made(true)
        } else if c == 'n' || c == 'N' {
            Choice::Made(false)
        } else {
            Choice::Open(selected)
        },
        Key::Left => Choice::Open(true),
        Key::Up => Choice::Open(true),
        Key::Home => Choice::Open(true),
        Key::Right => Choice::Open(false),
        Key::Down => Choice::Open(false),
        Key::End => Choice::Open(false),
        Key::Tab => Choice::Open(false),
        _ => Choice::Open(selected),
    }
}

/// What a key does while the setup waits for its end: it goes on, it ends, or Rope is
/// not started.
pub fn finish_key(key: Key, control: bool) -> (result: Edited)
    ensures
        result == outcome(key, control),
{
    match key {
        Key::Enter => Edited::Done,
        Key::Esc => Edited::Cancelled,
        Key::Char(c) => if control && c == 'c' {
            Edited::Cancelled
        } else {
            Edited::Open
        },
        _ => Edited::Open,
    }
}

// ---------------------------------------------------------------------------
// Endpoints
// ---------------------------------------------------------------------------

/// What is wrong with an endpoint.
pub open spec fn endpoint_fault(endpoint: Seq<char>) -> Option<Seq<char>> {
    match read_url(endpoint) {
        None => Some("invalid API endpoint: "@ + url_fault(endpoint)),
        Some(url) => if !is_web(url) || url.host is None {
            Some("API endpoint must be an HTTP(S) URL"@)
        } else if url.has_query || url.has_fragment {
            Some("API endpoint cannot contain a query or fragment"@)
        } else {
            None
        },
    }
}

/// An endpoint without slashes at its end, or what is wrong with it.
pub fn normalize_endpoint(endpoint: &str) -> (result: Result<String, String>)
    ensures
        match result {
            Ok(clean) => endpoint_fault(endpoint@) is None && clean@ == trim_end_char(
                endpoint@,
                '/',
            ),
            Err(error) => endpoint_fault(endpoint@) == Some(error@),
        },
{
    let url = match parse_url(endpoint) {
        Ok(url) => url,
        Err(fault) => {
            return Err(text::join_two("invalid API endpoint: ", fault.as_str()));
        },
    };
    if !has_web_scheme(&url) || url.host.is_none() {
        return Err("API endpoint must be an HTTP(S) URL".to_owned());
    }
    if url.has_query || url.has_fragment {
        return Err("API endpoint cannot contain a query or fragment".to_owned());
    }
    Ok(text::without_trailing(endpoint, '/'))
}

/// Whether a host is that of OpenAI.
pub open spec fn is_openai_host(host: Seq<char>) -> bool {
    lower(host) == "api.openai.com"@
}

/// What a provider is called, by its host and its number.
pub open spec fn host_name(host: Option<Seq<char>>, number: usize) -> Seq<char> {
    let host = match host {
        Some(host) => host,
        None => "provider"@,
    };
    if is_openai_host(host) {
        "OpenAI"@
    } else if host == "localhost"@ || host == "127.0.0.1"@ {
        "local-"@ + text::digits(number as nat)
    } else {
        host.take(index_of(host, '.', 0))
    }
}

/// What a provider is called, by its host and its number.
pub fn name_for_host(host: Option<&str>, number: usize) -> (name: String)
    ensures
        name@ == host_name(host.deep_view(), number),
{
    let host = match host {
        Some(host) => host,
        None => "provider",
    };
    let lowered = text::to_lower(host);
    if text::same(lowered.as_str(), "api.openai.com") {
        return "OpenAI".to_owned();
    }
    if text::same(host, "localhost") || text::same(host, "127.0.0.1") {
        return text::join_two("local-", text::decimal(number as u64).as_str());
    }
    let chars = text::to_chars(host);
    let end: usize = text::next_index(&chars, '.', 0);
    assert(chars@.subrange(0, end as int) =~= chars@.take(end as int));
    text::from_chars(&chars, 0, end)
}

/// What the provider at an endpoint is called; nothing where the endpoint is no
/// address.
pub fn provider_name(endpoint: &str, number: usize) -> (result: Option<String>)
    ensures
        result.deep_view() == match read_url(endpoint@) {
            Some(url) => Some(host_name(url.host, number)),
            None => None,
        },
{
    match parse_url(endpoint) {
        Ok(url) => match &url.host {
            Some(host) => Some(name_for_host(Some(host.as_str()), number)),
            None => Some(name_for_host(None, number)),
        },
        Err(_) => None,
    }
}

/// Whether an endpoint is that of OpenAI.
pub fn is_openai_endpoint(endpoint: &str) -> (result: bool)
    ensures
        result == match read_url(endpoint@) {
            Some(url) => match url.host {
                Some(host) => is_openai_host(host),
                None => false,
            },
            None => false,
        },
{
    match parse_url(endpoint) {
        Ok(url) => match &url.host {
            Some(host) => {
                let lowered = text::to_lower(host.as_str());
                text::same(lowered.as_str(), "api.openai.com")
            },
            None => false,
        },
        Err(_) => false,
    }
}

/// What is wrong with a name for a provider, beside those there are.
pub fn check_provider_name(name: &str, taken: &Vec<String>) -> (result: Result<(), String>)
    ensures
        match result {
            Ok(_) => trim(name@).len() > 0 && !taken.deep_view().contains(name@),
            Err(warning) => if trim(name@).len() == 0 {
                warning@ == "Provider name cannot be empty."@
            } else {
                taken.deep_view().contains(name@) && warning@
                    == "That provider name is already in use."@
            },
        },
{
    let said = text::trimmed(name);
    if said.as_str().is_empty() {
        return Err("Provider name cannot be empty.".to_owned());
    }
    if text::holds(taken, name) {
        return Err("That provider name is already in use.".to_owned());
    }
    Ok(())
}

// ---------------------------------------------------------------------------
// Models of several providers
// ---------------------------------------------------------------------------

/// The number of models with a name.
pub open spec fn count_name(models: Seq<ModelView>, name: Seq<char>) -> nat
    decreases models.len(),
{
    if models.len() == 0 {
        0
    } else {
        count_name(models.drop_last(), name) + if models.last().name == name {
            1nat
        } else {
            0
        }
    }
}

/// The model at `i` under a name that tells its provider, where others have its name.
pub open spec fn told_apart(models: Seq<ModelView>, i: int) -> ModelView {
    if count_name(models, models[i].name) > 1 {
        ModelView { name: models[i].provider + "/"@ + models[i].id, ..models[i] }
    } else {
        models[i]
    }
}

fn count_named(models: &Vec<ModelConfig>, name: &str) -> (count: usize)
    ensures
        count == count_name(models.deep_view(), name@),
{
    let ghost all = models.deep_view();
    let mut count: usize = 0;
    let mut i: usize = 0;
    while i < models.len()
        invariant
            all == models.deep_view(),
            i <= models@.len(),
            count <= i,
            count == count_name(all.take(i as int), name@),
        decreases models@.len() - i,
    {
        proof {
            assert(all.take(i + 1).drop_last() =~= all.take(i as int));
            assert(all.take(i + 1).last() == models@[i as int].deep_view());
        }
        if text::same(models[i].name.as_str(), name) {
            count += 1;
        }
        i += 1;
    }
    assert(all.take(i as int) =~= all);
    count
}

/// Gives models that share a name names that tell their providers.
pub fn disambiguate_model_names(models: &mut Vec<ModelConfig>)
    ensures
        final(models).deep_view() == Seq::new(
            old(models)@.len(),
            |i: int| told_apart(old(models).deep_view(), i),
        ),
{
    let ghost all = models.deep_view();
    let mut result: Vec<ModelConfig> = Vec::new();
    let mut i: usize = 0;
    while i < models.len()
        invariant
            all == models.deep_view(),
            i <= models@.len(),
            result@.len() == i,
            forall|k: int| 0 <= k < i ==> (#[trigger] result@[k]).deep_view() == told_apart(all, k),
        decreases models@.len() - i,
    {
        assert(all[i as int] == models@[i as int].deep_view());
        let mut model = models[i].clone();
        if count_named(models, model.name.as_str()) > 1 {
            model.name = text::join_three(model.provider.as_str(), "/", model.id.as_str());
        }
        result.push(model);
        i += 1;
    }
    *models = result;
    assert(models.deep_view() =~= Seq::new(all.len(), |i: int| told_apart(all, i)));
}

// ---------------------------------------------------------------------------
// What the setup leaves
// ---------------------------------------------------------------------------

/// The models of a provider that hold conversations, bound to it.
pub open spec fn bound_models(ids: Seq<Seq<char>>, provider: Seq<char>) -> Seq<ModelView>
    decreases ids.len(),
{
    if ids.len() == 0 {
        Seq::empty()
    } else if is_chat_model(ids.last()) {
        bound_models(ids.drop_last(), provider).push(
            ModelView { provider, ..config_of(ids.last()) },
        )
    } else {
        bound_models(ids.drop_last(), provider)
    }
}

/// The models of a provider, in the order in which they are offered.
pub open spec fn offered_models(
    ids: Seq<Seq<char>>,
    provider: Seq<char>,
    openai: bool,
) -> Seq<ModelView> {
    if openai {
        order::sorted(bound_models(ids, provider), rank_order())
    } else {
        bound_models(ids, provider)
    }
}

/// The models of a provider by the ids that it lists: those that hold conversations,
/// bound to it, in the order in which they are offered. There has to be one.
pub fn discovered_models(ids: Vec<String>, provider: &str, openai: bool) -> (result: Result<
    Vec<ModelConfig>,
    String,
>)
    ensures
        match result {
            Ok(models) => models@.len() > 0 && models.deep_view() == offered_models(
                ids.deep_view(),
                provider@,
                openai,
            ),
            Err(error) => {
                &&& bound_models(ids.deep_view(), provider@).len() == 0
                &&& error@ == "the API returned no models usable with Chat Completions"@
            },
        },
{
    let ghost all = ids.deep_view();
    let mut models: Vec<ModelConfig> = Vec::new();
    let mut i: usize = 0;
    assert(models.deep_view() =~= bound_models(all.take(0), provider@));
    while i < ids.len()
        invariant
            all == ids.deep_view(),
            i <= ids@.len(),
            models.deep_view() == bound_models(all.take(i as int), provider@),
        decreases ids@.len() - i,
    {
        let ghost before = models.deep_view();
        proof {
            assert(all.take(i + 1).drop_last() =~= all.take(i as int));
            assert(all.take(i + 1).last() == ids@[i as int]@);
        }
        if supports_chat_completions(ids[i].as_str()) {
            let mut model = model_config(ids[i].clone());
            model.provider = provider.to_owned();
            models.push(model);
            assert(models.deep_view() =~= before.push(model.deep_view()));
        }
        i += 1;
    }
    assert(all.take(i as int) =~= all);
    if models.len() == 0 {
        return Err("the API returned no models usable with Chat Completions".to_owned());
    }
    if openai {
        let ghost bound = models.deep_view();
        prioritize_openai_models(&mut models);
        proof {
            priority_law(bound);
            vstd::seq_lib::to_multiset_len(bound);
            vstd::seq_lib::to_multiset_len(models.deep_view());
        }
    }
    Ok(models)
}

/// The configuration that the setup writes.
pub open spec fn setup_config(
    providers: Seq<ProviderView>,
    models: Seq<ModelView>,
) -> ConfigView {
    ConfigView {
        base_url: Seq::empty(),
        api_key: Seq::empty(),
        providers,
        model: models[0].name,
        reasoning_effort: models[0].reasoning_effort,
        models,
        ..default_config()
    }
}

/// The configuration that the setup writes: the first model is the one in use.
pub fn configured(providers: Vec<ProviderConfig>, models: Vec<ModelConfig>) -> (config: Config)
    requires
        models@.len() > 0,
    ensures
        config.deep_view() == setup_config(providers.deep_view(), models.deep_view()),
{
    assert(models.deep_view()[0] == models@[0].deep_view());
    let mut config = Config::default();
    config.base_url = String::new();
    config.api_key = String::new();
    config.providers = providers;
    config.model = models[0].name.clone();
    config.reasoning_effort = models[0].reasoning_effort;
    config.models = models;
    config
}

/// The model in use behind the setup is one of those that it found.
pub proof fn setup_law(providers: Seq<ProviderView>, models: Seq<ModelView>)
    requires
        models.len() > 0,
    ensures
        exists|i: int|
            0 <= i < setup_config(providers, models).models.len() && #[trigger] setup_config(
                providers,
                models,
            ).models[i].name == setup_config(providers, models).model,
{
    assert(setup_config(providers, models).models[0].name == setup_config(providers, models).model);
}

} // verus!
