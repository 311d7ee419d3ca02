//! Settings: endpoints, models and what tools may do.
use crate::runtime::ReasoningEffort;
use crate::text;
use crate::tool::Approval;
use vstd::prelude::*;
use vstd::string::*;

verus! {

/// The bit pattern of the single-precision number one.
pub const ONE: u32 = 0x3f80_0000;

/// The bit pattern of the single-precision number three quarters.
pub const THREE_QUARTERS: u32 = 0x3f40_0000;

/// The bit pattern of the single-precision negative zero.
pub const MINUS_ZERO: u32 = 0x8000_0000;

/// The session to start with.
#[derive(Debug, PartialEq)]
pub struct Startup {
    pub session: Option<String>,
}

/// What the program was called with.
#[derive(Debug, PartialEq)]
pub struct Args {
    pub session: Option<String>,
    pub request: Option<String>,
}

/// A word of small letters that is neither of the two which `clap` keeps for itself.
pub open spec fn is_plain_word(word: Seq<char>) -> bool {
    &&& word.len() > 0
    &&& word != "help"@
    &&& word != "version"@
    &&& forall|i: int| 0 <= i < word.len() ==> 'a' <= #[trigger] word[i] <= 'z'
}

/// What `clap` reads from arguments with one option, which takes a value, and one optional
/// word without a name; `None` where it reports an error or only prints something.
pub uninterp spec fn read_arguments(
    arguments: Seq<Seq<char>>,
    option: Seq<char>,
    positional: Seq<char>,
) -> Option<(Option<Seq<char>>, Option<Seq<char>>)>;

/// `clap::Command::try_get_matches_from` for a command with one option and one optional
/// word. What is told of the program goes into the text of an error only, which is not
/// stated: it depends on how `clap` was built.
#[verifier::external_body]
fn match_arguments(
    arguments: &Vec<String>,
    program: (&'static str, &'static str, &'static str),
    option: &'static str,
    positional: &'static str,
) -> (result: Result<(Option<String>, Option<String>), String>)
    requires
        is_plain_word(option@),
        is_plain_word(positional@),
        option@ != positional@,
    ensures
        match result {
            Ok(found) => read_arguments(arguments.deep_view(), option@, positional@) == Some(
                found.deep_view(),
            ),
            Err(_) => read_arguments(arguments.deep_view(), option@, positional@) is None,
        },
{
    let command = clap::Command::new(program.0)
        .version(program.1)
        .about(program.2)
        .arg(clap::Arg::new(option).long(option))
        .arg(clap::Arg::new(positional));
    match command.try_get_matches_from(arguments) {
        Ok(m) => Ok((m.get_one(option).cloned(), m.get_one(positional).cloned())),
        Err(error) => Err(error.to_string()),
    }
}

impl Args {
    /// Reads the arguments of the program, its name first.
    pub fn try_parse_from(arguments: &Vec<String>) -> (result: Result<Args, String>)
        ensures
            ({
                let read = read_arguments(arguments.deep_view(), "session"@, "request"@);
                match result {
                    Ok(args) => read == Some((args.session.deep_view(), args.request.deep_view())),
                    Err(_) => read is None,
                }
            }),
    {
        proof {
            reveal_strlit("session");
            reveal_strlit("request");
            reveal_strlit("help");
            reveal_strlit("version");
            assert("session"@[0] != "version"@[0]);
            assert("request"@[0] != "version"@[0]);
            assert("session"@[0] != "request"@[0]);
        }
        let program = ("rope", "0.1.0", "Minimal OpenAI-compatible terminal chat");
        match match_arguments(arguments, program, "session", "request") {
            Ok(found) => Ok(Args { session: found.0, request: found.1 }),
            Err(error) => Err(error),
        }
    }

    pub fn startup(&self) -> (result: Startup)
        ensures
            result.session.deep_view() == self.session.deep_view(),
    {
        Startup { session: self.session.clone() }
    }
}

// ---------------------------------------------------------------------------
// Providers and models
// ---------------------------------------------------------------------------

/// The protocol that an endpoint speaks.
#[derive(Clone, Copy, Debug, PartialEq, Eq, Structural)]
pub enum ProviderApi {
    Responses,
    ChatCompletions,
}

impl ProviderApi {
    pub fn label(&self) -> (result: &'static str)
        ensures
            result@ == match *self {
                ProviderApi::Responses => "Responses"@,
                ProviderApi::ChatCompletions => "Chat Completions"@,
            },
    {
        match self {
            ProviderApi::Responses => "Responses",
            ProviderApi::ChatCompletions => "Chat Completions",
        }
    }
}

impl Default for ProviderApi {
    fn default() -> (result: Self)
        ensures
            result == ProviderApi::Responses,
    {
        ProviderApi::Responses
    }
}

#[derive(Debug, PartialEq)]
pub struct ProviderConfig {
    pub name: String,
    pub base_url: String,
    pub api_key: String,
    pub api: ProviderApi,
}

pub struct ProviderView {
    pub name: Seq<char>,
    pub base_url: Seq<char>,
    pub api_key: Seq<char>,
    pub api: ProviderApi,
}

impl DeepView for ProviderConfig {
    type V = ProviderView;

    open spec fn deep_view(&self) -> ProviderView {
        ProviderView {
            name: self.name@,
            base_url: self.base_url@,
            api_key: self.api_key@,
            api: self.api,
        }
    }
}

impl Clone for ProviderConfig {
    fn clone(&self) -> (result: Self)
        ensures
            result.deep_view() == self.deep_view(),
    {
        ProviderConfig {
            name: self.name.clone(),
            base_url: self.base_url.clone(),
            api_key: self.api_key.clone(),
            api: self.api,
        }
    }
}

impl Default for ProviderConfig {
    fn default() -> (result: Self)
        ensures
            result.deep_view() == (ProviderView {
                name: "default"@,
                base_url: "https://api.openai.com/v1"@,
                api_key: Seq::empty(),
                api: ProviderApi::Responses,
            }),
    {
        ProviderConfig {
            name: "default".to_owned(),
            base_url: "https://api.openai.com/v1".to_owned(),
            api_key: String::new(),
            api: ProviderApi::Responses,
        }
    }
}

/// A model of a provider. A temperature is the bit pattern of a single-precision
/// number, a price that of a double.
#[derive(Debug, PartialEq)]
pub struct ModelConfig {
    pub name: String,
    pub provider: String,
    pub id: String,
    pub max_context_tokens: u64,
    pub temperature: Option<u32>,
    pub reasoning_effort: Option<ReasoningEffort>,
    pub reasoning_efforts: Vec<ReasoningEffort>,
    pub price_per_token: Option<u64>,
    pub vision: bool,
}

pub struct ModelView {
    pub name: Seq<char>,
    pub provider: Seq<char>,
    pub id: Seq<char>,
    pub max_context_tokens: u64,
    pub temperature: Option<u32>,
    pub reasoning_effort: Option<ReasoningEffort>,
    pub reasoning_efforts: Seq<ReasoningEffort>,
    pub price_per_token: Option<u64>,
    pub vision: bool,
}

impl DeepView for ModelConfig {
    type V = ModelView;

    open spec fn deep_view(&self) -> ModelView {
        ModelView {
            name: self.name@,
            provider: self.provider@,
            id: self.id@,
            max_context_tokens: self.max_context_tokens,
            temperature: self.temperature,
            reasoning_effort: self.reasoning_effort,
            reasoning_efforts: self.reasoning_efforts@,
            price_per_token: self.price_per_token,
            vision: self.vision,
        }
    }
}

impl Clone for ModelConfig {
    fn clone(&self) -> (result: Self)
        ensures
            result.deep_view() == self.deep_view(),
    {
        let reasoning_efforts = self.reasoning_efforts.clone();
        assert(reasoning_efforts@ =~= self.reasoning_efforts@);
        ModelConfig {
            name: self.name.clone(),
            provider: self.provider.clone(),
            id: self.id.clone(),
            max_context_tokens: self.max_context_tokens,
            temperature: self.temperature,
            reasoning_effort: self.reasoning_effort,
            reasoning_efforts,
            price_per_token: self.price_per_token,
            vision: self.vision,
        }
    }
}

/// The model that is used where none is set.
pub open spec fn default_model() -> ModelView {
    ModelView {
        name: "qwen"@,
        provider: "default"@,
        id: "vllm/qwen3.8-27b"@,
        max_context_tokens: 262_144,
        temperature: Some(ONE),
        reasoning_effort: Some(ReasoningEffort::XHigh),
        reasoning_efforts: seq![
            ReasoningEffort::Low,
            ReasoningEffort::Medium,
            ReasoningEffort::XHigh,
        ],
        price_per_token: None,
        vision: true,
    }
}

impl Default for ModelConfig {
    fn default() -> (result: Self)
        ensures
            result.deep_view() == default_model(),
    {
        let mut reasoning_efforts: Vec<ReasoningEffort> = Vec::new();
        reasoning_efforts.push(ReasoningEffort::Low);
        reasoning_efforts.push(ReasoningEffort::Medium);
        reasoning_efforts.push(ReasoningEffort::XHigh);
        assert(reasoning_efforts@ =~= default_model().reasoning_efforts);
        ModelConfig {
            name: "qwen".to_owned(),
            provider: "default".to_owned(),
            id: "vllm/qwen3.8-27b".to_owned(),
            max_context_tokens: 262_144,
            temperature: Some(ONE),
            reasoning_effort: Some(ReasoningEffort::XHigh),
            reasoning_efforts,
            price_per_token: None,
            vision: true,
        }
    }
}

/// Whether an effort is among those that a model offers.
pub(crate) fn offers(model: &ModelConfig, effort: ReasoningEffort) -> (result: bool)
    ensures
        result == model.reasoning_efforts@.contains(effort),
{
    let mut i: usize = 0;
    while i < model.reasoning_efforts.len()
        invariant
            i <= model.reasoning_efforts@.len(),
            forall|k: int| 0 <= k < i ==> model.reasoning_efforts@[k] != effort,
        decreases model.reasoning_efforts@.len() - i,
    {
        if model.reasoning_efforts[i] == effort {
            return true;
        }
        i += 1;
    }
    false
}

/// Whether a model is the one that is used where none is set.
fn is_default(model: &ModelConfig) -> (result: bool)
    ensures
        result == (model.deep_view() == default_model()),
{
    let efforts = &model.reasoning_efforts;
    let result = text::same(model.name.as_str(), "qwen") && text::same(
        model.provider.as_str(),
        "default",
    ) && text::same(model.id.as_str(), "vllm/qwen3.8-27b") && model.max_context_tokens == 262_144
        && model.temperature == Some(ONE) && model.reasoning_effort == Some(ReasoningEffort::XHigh)
        && efforts.len() == 3 && efforts[0] == ReasoningEffort::Low && efforts[1]
        == ReasoningEffort::Medium && efforts[2] == ReasoningEffort::XHigh
        && model.price_per_token.is_none() && model.vision;
    proof {
        if result {
            assert(efforts@ =~= default_model().reasoning_efforts);
        } else if model.deep_view() == default_model() {
            assert(efforts@.len() == 3);
            assert(efforts@[0] == ReasoningEffort::Low);
            assert(efforts@[1] == ReasoningEffort::Medium);
            assert(efforts@[2] == ReasoningEffort::XHigh);
        }
    }
    result
}

/// What each kind of tool may do.
#[derive(Clone, Copy, Debug, PartialEq, Eq, Structural)]
pub struct ToolPolicies {
    pub read: Approval,
    pub write: Approval,
    pub edit: Approval,
    pub shell: Approval,
    pub search_files: Approval,
    pub list_files: Approval,
    pub web_browser: Approval,
    pub web_search: Approval,
    pub external: Approval,
}

/// Reading runs; what changes something or reaches out asks first.
pub open spec fn default_policies() -> ToolPolicies {
    ToolPolicies {
        read: Approval::Allow,
        write: Approval::Ask,
        edit: Approval::Ask,
        shell: Approval::Ask,
        search_files: Approval::Allow,
        list_files: Approval::Allow,
        web_browser: Approval::Ask,
        web_search: Approval::Ask,
        external: Approval::Ask,
    }
}

impl Default for ToolPolicies {
    fn default() -> (result: Self)
        ensures
            result == default_policies(),
    {
        ToolPolicies {
            read: Approval::Allow,
            write: Approval::Ask,
            edit: Approval::Ask,
            shell: Approval::Ask,
            search_files: Approval::Allow,
            list_files: Approval::Allow,
            web_browser: Approval::Ask,
            web_search: Approval::Ask,
            external: Approval::Ask,
        }
    }
}

// ---------------------------------------------------------------------------
// The configuration
// ---------------------------------------------------------------------------

/// All settings. Temperature and threshold are the bit patterns of single-precision
/// numbers.
#[derive(Debug, PartialEq)]
pub struct Config {
    pub base_url: String,
    pub api_key: String,
    pub providers: Vec<ProviderConfig>,
    pub model: String,
    pub models: Vec<ModelConfig>,
    pub temperature: Option<u32>,
    pub reasoning_effort: Option<ReasoningEffort>,
    pub paste_collapse_chars: usize,
    pub compaction_threshold: u32,
    pub tools: ToolPolicies,
    pub recent_models: Vec<String>,
    pub recent_commands: Vec<String>,
    pub settings_path: String,
}

pub struct ConfigView {
    pub base_url: Seq<char>,
    pub api_key: Seq<char>,
    pub providers: Seq<ProviderView>,
    pub model: Seq<char>,
    pub models: Seq<ModelView>,
    pub temperature: Option<u32>,
    pub reasoning_effort: Option<ReasoningEffort>,
    pub paste_collapse_chars: usize,
    pub compaction_threshold: u32,
    pub tools: ToolPolicies,
    pub recent_models: Seq<Seq<char>>,
    pub recent_commands: Seq<Seq<char>>,
    pub settings_path: Seq<char>,
}

impl DeepView for Config {
    type V = ConfigView;

    open spec fn deep_view(&self) -> ConfigView {
        ConfigView {
            base_url: self.base_url@,
            api_key: self.api_key@,
            providers: self.providers.deep_view(),
            model: self.model@,
            models: self.models.deep_view(),
            temperature: self.temperature,
            reasoning_effort: self.reasoning_effort,
            paste_collapse_chars: self.paste_collapse_chars,
            compaction_threshold: self.compaction_threshold,
            tools: self.tools,
            recent_models: self.recent_models.deep_view(),
            recent_commands: self.recent_commands.deep_view(),
            settings_path: self.settings_path@,
        }
    }
}

fn clone_texts(texts: &Vec<String>) -> (result: Vec<String>)
    ensures
        result.deep_view() == texts.deep_view(),
{
    let result = texts.clone();
    assert(result.deep_view() =~= texts.deep_view());
    result
}

impl Clone for Config {
    fn clone(&self) -> (result: Self)
        ensures
            result.deep_view() == self.deep_view(),
    {
        let providers = self.providers.clone();
        assert(providers.deep_view() =~= self.providers.deep_view());
        let models = self.models.clone();
        assert(models.deep_view() =~= self.models.deep_view());
        Config {
            base_url: self.base_url.clone(),
            api_key: self.api_key.clone(),
            providers,
            model: self.model.clone(),
            models,
            temperature: self.temperature,
            reasoning_effort: self.reasoning_effort,
            paste_collapse_chars: self.paste_collapse_chars,
            compaction_threshold: self.compaction_threshold,
            tools: self.tools,
            recent_models: clone_texts(&self.recent_models),
            recent_commands: clone_texts(&self.recent_commands),
            settings_path: self.settings_path.clone(),
        }
    }
}

/// The settings that hold where none is made.
pub open spec fn default_config() -> ConfigView {
    ConfigView {
        base_url: "https://api.openai.com/v1"@,
        api_key: Seq::empty(),
        providers: Seq::empty(),
        model: default_model().name,
        models: seq![default_model()],
        temperature: None,
        reasoning_effort: default_model().reasoning_effort,
        paste_collapse_chars: 200,
        compaction_threshold: THREE_QUARTERS,
        tools: default_policies(),
        recent_models: Seq::empty(),
        recent_commands: Seq::empty(),
        settings_path: Seq::empty(),
    }
}

impl Default for Config {
    fn default() -> (result: Self)
        ensures
            result.deep_view() == default_config(),
    {
        let model = ModelConfig::default();
        let reasoning_effort = model.reasoning_effort;
        let name = model.name.clone();
        let mut models: Vec<ModelConfig> = Vec::new();
        models.push(model);
        let providers: Vec<ProviderConfig> = Vec::new();
        let recent_models: Vec<String> = Vec::new();
        let recent_commands: Vec<String> = Vec::new();
        proof {
            assert(models.deep_view() =~= seq![default_model()]);
            assert(providers.deep_view() =~= Seq::empty());
            assert(recent_models.deep_view() =~= Seq::empty());
            assert(recent_commands.deep_view() =~= Seq::empty());
        }
        Config {
            base_url: "https://api.openai.com/v1".to_owned(),
            api_key: String::new(),
            providers,
            model: name,
            models,
            temperature: None,
            reasoning_effort,
            paste_collapse_chars: 200,
            compaction_threshold: THREE_QUARTERS,
            tools: ToolPolicies::default(),
            recent_models,
            recent_commands,
            settings_path: String::new(),
        }
    }
}

/// Whether a model goes by `key`.
pub open spec fn goes_by(model: ModelView, key: Seq<char>) -> bool {
    model.name == key || model.id == key
}

/// The index of the first model from `from` on that goes by `key`; the number of
/// models where none does.
pub open spec fn find_model(models: Seq<ModelView>, key: Seq<char>, from: int) -> int
    decreases models.len() - from,
{
    if from < 0 || from >= models.len() {
        models.len() as int
    } else if goes_by(models[from], key) {
        from
    } else {
        find_model(models, key, from + 1)
    }
}

/// The model in use: the first that goes by the name that is set, else the first.
pub open spec fn active(config: ConfigView) -> ModelView {
    let i = find_model(config.models, config.model, 0);
    if i < config.models.len() {
        config.models[i]
    } else {
        config.models[0]
    }
}

/// The index of the first model that goes by `key`.
fn position(models: &Vec<ModelConfig>, key: &str) -> (result: Option<usize>)
    ensures
        match result {
            Some(i) => i == find_model(models.deep_view(), key@, 0) && i < models@.len(),
            None => find_model(models.deep_view(), key@, 0) == models@.len(),
        },
{
    let ghost all = models.deep_view();
    let mut i: usize = 0;
    while i < models.len()
        invariant
            all == models.deep_view(),
            i <= models@.len(),
            find_model(all, key@, 0) == find_model(all, key@, i as int),
        decreases models@.len() - i,
    {
        assert(all[i as int] == models@[i as int].deep_view());
        if text::same(models[i].name.as_str(), key) || text::same(models[i].id.as_str(), key) {
            return Some(i);
        }
        i += 1;
    }
    None
}

/// What is kept of the settings between runs.
#[derive(Debug, PartialEq)]
pub struct PersistedSettings {
    pub model: Option<String>,
    pub reasoning_effort: Option<ReasoningEffort>,
    pub recent_models: Vec<String>,
    pub recent_commands: Vec<String>,
}

pub struct SettingsView {
    pub model: Option<Seq<char>>,
    pub reasoning_effort: Option<ReasoningEffort>,
    pub recent_models: Seq<Seq<char>>,
    pub recent_commands: Seq<Seq<char>>,
}

impl DeepView for PersistedSettings {
    type V = SettingsView;

    open spec fn deep_view(&self) -> SettingsView {
        SettingsView {
            model: self.model.deep_view(),
            reasoning_effort: self.reasoning_effort,
            recent_models: self.recent_models.deep_view(),
            recent_commands: self.recent_commands.deep_view(),
        }
    }
}

/// The number of recent names that are kept.
pub const RECENT: usize = 12;

/// Any name but `name`.
pub open spec fn is_other(name: Seq<char>) -> spec_fn(Seq<char>) -> bool {
    |n: Seq<char>| n != name
}

/// The names but `name`.
pub open spec fn others(names: Seq<Seq<char>>, name: Seq<char>) -> Seq<Seq<char>> {
    names.filter(is_other(name))
}

/// `name` in front of the other names, as many as are kept.
pub open spec fn remember(names: Seq<Seq<char>>, name: Seq<char>) -> Seq<Seq<char>> {
    let all = seq![name] + others(names, name);
    if all.len() > RECENT {
        all.take(RECENT as int)
    } else {
        all
    }
}

/// The names but `name`.
pub(crate) fn without_name(names: &Vec<String>, name: &str) -> (kept: Vec<String>)
    ensures
        kept.deep_view() == others(names.deep_view(), name@),
{
    let ghost all = names.deep_view();
    let ghost other = is_other(name@);
    let mut kept: Vec<String> = Vec::new();
    let mut i: usize = 0;
    proof {
        reveal(Seq::filter);
        assert(kept.deep_view() =~= all.take(0).filter(other));
    }
    while i < names.len()
        invariant
            all == names.deep_view(),
            other == is_other(name@),
            i <= names@.len(),
            kept.deep_view() == all.take(i as int).filter(other),
        decreases names@.len() - i,
    {
        let ghost before = kept.deep_view();
        proof {
            reveal(Seq::filter);
            assert(all.take(i + 1).drop_last() =~= all.take(i as int));
            assert(all.take(i + 1).last() == names@[i as int]@);
        }
        if !text::same(names[i].as_str(), name) {
            kept.push(names[i].clone());
            assert(kept.deep_view() =~= before.push(names@[i as int]@));
        }
        i += 1;
    }
    assert(all.take(i as int) =~= all);
    kept
}

/// `name` in front of the other names, as many as are kept.
fn remember_name(names: &mut Vec<String>, name: &str)
    ensures
        final(names).deep_view() == remember(old(names).deep_view(), name@),
{
    let mut kept = without_name(names, name);
    let ghost rest = kept.deep_view();
    kept.insert(0, name.to_owned());
    assert(kept.deep_view() =~= seq![name@] + rest);
    let ghost full = kept.deep_view();
    kept.truncate(RECENT);
    proof {
        if full.len() > RECENT {
            assert(kept.deep_view() =~= full.take(RECENT as int));
        } else {
            assert(kept.deep_view() =~= full);
        }
    }
    *names = kept;
}

/// A remembered name stands first and once, and no more names are kept than are
/// wanted; the order of the others is kept.
pub proof fn remember_law(names: Seq<Seq<char>>, name: Seq<char>)
    ensures
        remember(names, name).len() > 0,
        remember(names, name)[0] == name,
        remember(names, name).len() <= RECENT,
        names.no_duplicates() ==> remember(names, name).no_duplicates(),
        remember(remember(names, name), name) == remember(names, name),
{
    let other = is_other(name);
    let rest = others(names, name);
    let all = seq![name] + rest;
    let r = remember(names, name);
    assert forall|i: int| 0 <= i < rest.len() implies #[trigger] rest[i] != name by {
        names.lemma_filter_pred(other, i);
        assert(other(rest[i]));
    }
    if names.no_duplicates() {
        filter_keeps_distinct(names, other);
        assert forall|i: int, j: int| 0 <= i < all.len() && 0 <= j < all.len() && i != j implies all[i]
            != all[j] by {
            if i == 0 {
                assert(all[j] == rest[j - 1]);
            } else if j == 0 {
                assert(all[i] == rest[i - 1]);
            } else {
                assert(rest[i - 1] != rest[j - 1]);
            }
        }
        assert(r.no_duplicates());
    }
    let tail = r.skip(1);
    assert(r =~= seq![name] + tail);
    assert forall|i: int| 0 <= i < tail.len() implies other(#[trigger] tail[i]) by {
        assert(tail[i] == all[i + 1]);
        assert(all[i + 1] == rest[i]);
    }
    filter_of_kept(tail, other);
    assert(others(r, name) == tail) by {
        Seq::filter_distributes_over_add(seq![name], tail, other);
        reveal_with_fuel(Seq::filter, 3);
        assert(seq![name].drop_last() =~= Seq::empty());
        assert(seq![name].filter(other) =~= Seq::empty());
        assert(Seq::<Seq<char>>::empty() + tail =~= tail);
    }
}

proof fn filter_of_kept(s: Seq<Seq<char>>, f: spec_fn(Seq<char>) -> bool)
    requires
        forall|i: int| 0 <= i < s.len() ==> f(#[trigger] s[i]),
    ensures
        s.filter(f) == s,
    decreases s.len(),
{
    reveal(Seq::filter);
    if s.len() > 0 {
        assert forall|i: int| 0 <= i < s.drop_last().len() implies f(
            #[trigger] s.drop_last()[i],
        ) by {
            assert(s.drop_last()[i] == s[i]);
        }
        filter_of_kept(s.drop_last(), f);
        assert(f(s[s.len() - 1]));
        assert(s.drop_last().push(s.last()) =~= s);
    }
}

proof fn filter_keeps_distinct(s: Seq<Seq<char>>, f: spec_fn(Seq<char>) -> bool)
    requires
        s.no_duplicates(),
    ensures
        s.filter(f).no_duplicates(),
        forall|i: int|
            0 <= i < s.filter(f).len() ==> s.contains(#[trigger] s.filter(f)[i]),
    decreases s.len(),
{
    reveal(Seq::filter);
    if s.len() > 0 {
        let rest = s.drop_last();
        assert forall|i: int, j: int| 0 <= i < rest.len() && 0 <= j < rest.len() && i
            != j implies rest[i] != rest[j] by {
            assert(s[i] != s[j]);
        }
        filter_keeps_distinct(rest, f);
        let kept = rest.filter(f);
        assert forall|i: int| 0 <= i < kept.len() implies kept[i] != s.last() && s.contains(
            #[trigger] kept[i],
        ) by {
            let k = choose|k: int| 0 <= k < rest.len() && rest[k] == kept[i];
            assert(rest.contains(kept[i]));
            assert(s[k] == kept[i]);
            assert(s[k] != s[s.len() - 1]);
        }
        if f(s.last()) {
            assert(s.filter(f) == kept.push(s.last()));
            assert(s.contains(s[s.len() - 1]));
        }
    }
}

/// The first effort with which a model thinks at all.
pub open spec fn first_thinking(efforts: Seq<ReasoningEffort>) -> Option<ReasoningEffort>
    decreases efforts.len(),
{
    if efforts.len() == 0 {
        None
    } else if efforts[0] != ReasoningEffort::Off {
        Some(efforts[0])
    } else {
        first_thinking(efforts.skip(1))
    }
}

/// The effort for side tasks: the first with which the model thinks, else the first that
/// it offers.
pub open spec fn light_effort(efforts: Seq<ReasoningEffort>) -> Option<ReasoningEffort> {
    match first_thinking(efforts) {
        Some(effort) => Some(effort),
        None => if efforts.len() > 0 {
            Some(efforts[0])
        } else {
            None
        },
    }
}

impl Config {
    pub fn active_model(&self) -> (result: &ModelConfig)
        requires
            self.models@.len() > 0,
        ensures
            result.deep_view() == active(self.deep_view()),
    {
        match position(&self.models, self.model.as_str()) {
            Some(i) => &self.models[i],
            None => &self.models[0],
        }
    }

    pub fn model_id(&self) -> (result: &str)
        requires
            self.models@.len() > 0,
        ensures
            result@ == active(self.deep_view()).id,
    {
        self.active_model().id.as_str()
    }

    pub fn provider_name(&self) -> (result: &str)
        requires
            self.models@.len() > 0,
        ensures
            result@ == active(self.deep_view()).provider,
    {
        self.active_model().provider.as_str()
    }

    pub fn model_name(&self) -> (result: &str)
        requires
            self.models@.len() > 0,
        ensures
            result@ == active(self.deep_view()).name,
    {
        self.active_model().name.as_str()
    }

    /// The temperature that is set, else that of the model.
    pub fn effective_temperature(&self) -> (result: Option<u32>)
        requires
            self.models@.len() > 0,
        ensures
            result == match self.temperature {
                Some(t) => Some(t),
                None => active(self.deep_view()).temperature,
            },
    {
        match self.temperature {
            Some(t) => Some(t),
            None => self.active_model().temperature,
        }
    }

    /// The effort that is set, where the model offers it.
    pub fn effective_reasoning_effort(&self) -> (result: Option<ReasoningEffort>)
        requires
            self.reasoning_effort is Some ==> self.models@.len() > 0,
        ensures
            result == match self.reasoning_effort {
                Some(effort) if active(self.deep_view()).reasoning_efforts.contains(effort) =>
                    Some(effort),
                _ => None,
            },
    {
        match self.reasoning_effort {
            Some(effort) => if offers(self.active_model(), effort) {
                Some(effort)
            } else {
                None
            },
            None => None,
        }
    }

    /// The least effort of the model, for side tasks.
    pub fn light_reasoning_effort(&self) -> (result: Option<ReasoningEffort>)
        requires
            self.models@.len() > 0,
        ensures
            result == light_effort(active(self.deep_view()).reasoning_efforts),
    {
        let model = self.active_model();
        let efforts = &model.reasoning_efforts;
        let ghost all = efforts@;
        assert(all =~= active(self.deep_view()).reasoning_efforts);
        let mut i: usize = 0;
        assert(all.skip(0) =~= all);
        while i < efforts.len()
            invariant
                all == efforts@,
                all == active(self.deep_view()).reasoning_efforts,
                i <= efforts@.len(),
                first_thinking(all) == first_thinking(all.skip(i as int)),
            decreases efforts@.len() - i,
        {
            assert(all.skip(i as int)[0] == efforts@[i as int]);
            assert(all.skip(i as int).skip(1) =~= all.skip(i + 1));
            if efforts[i] != ReasoningEffort::Off {
                return Some(efforts[i]);
            }
            i += 1;
        }
        if efforts.len() > 0 {
            Some(efforts[0])
        } else {
            None
        }
    }

    /// Sets the model that goes by `value`.
    pub fn select_model(&mut self, value: &str) -> (result: Result<(), String>)
        ensures
            match result {
                Ok(_) => {
                    let i = find_model(old(self).deep_view().models, value@, 0);
                    &&& i < old(self).models@.len()
                    &&& final(self).deep_view() == (ConfigView {
                        model: old(self).deep_view().models[i].name,
                        ..old(self).deep_view()
                    })
                },
                Err(error) => {
                    &&& find_model(old(self).deep_view().models, value@, 0)
                        == old(self).models@.len()
                    &&& *final(self) == *old(self)
                    &&& error@ == "unknown model: "@ + value@
                },
            },
    {
        match position(&self.models, value) {
            Some(i) => {
                self.model = self.models[i].name.clone();
                Ok(())
            },
            None => Err(text::join_two("unknown model: ", value)),
        }
    }

    fn remember_model(&mut self)
        ensures
            final(self).deep_view() == (ConfigView {
                recent_models: remember(old(self).deep_view().recent_models, old(self).model@),
                ..old(self).deep_view()
            }),
    {
        let name = self.model.clone();
        remember_name(&mut self.recent_models, name.as_str());
    }

    /// Sets the model that goes by `value`, with the effort that it starts with.
    pub fn set_model(&mut self, value: &str) -> (result: Result<(), String>)
        ensures
            match result {
                Ok(_) => {
                    let before = old(self).deep_view();
                    let i = find_model(before.models, value@, 0);
                    let chosen = ConfigView { model: before.models[i].name, ..before };
                    &&& i < before.models.len()
                    &&& final(self).deep_view() == (ConfigView {
                        reasoning_effort: active(chosen).reasoning_effort,
                        recent_models: remember(before.recent_models, chosen.model),
                        ..chosen
                    })
                },
                Err(error) => {
                    &&& find_model(old(self).deep_view().models, value@, 0)
                        == old(self).models@.len()
                    &&& *final(self) == *old(self)
                    &&& error@ == "unknown model: "@ + value@
                },
            },
    {
        match self.select_model(value) {
            Ok(_) => {},
            Err(error) => {
                return Err(error);
            },
        }
        let effort = self.active_model().reasoning_effort;
        self.reasoning_effort = effort;
        self.remember_model();
        Ok(())
    }

    /// Goes on to the next effort that the model offers, and from the last to the
    /// first.
    pub fn next_reasoning_effort(&mut self)
        requires
            old(self).models@.len() > 0,
        ensures
            final(self).deep_view() == (ConfigView {
                reasoning_effort: next_effort(
                    active(old(self).deep_view()).reasoning_efforts,
                    old(self).reasoning_effort,
                ),
                ..old(self).deep_view()
            }),
    {
        let next = {
            let efforts = &self.active_model().reasoning_efforts;
            if efforts.len() == 0 {
                None
            } else {
                let mut index: usize = 0;
                match self.reasoning_effort {
                    Some(current) => {
                        let mut i: usize = 0;
                        while i < efforts.len() && efforts[i] != current
                            invariant
                                i <= efforts@.len(),
                                find_effort(efforts@, current, 0) == find_effort(
                                    efforts@,
                                    current,
                                    i as int,
                                ),
                            decreases efforts@.len() - i,
                        {
                            i += 1;
                        }
                        if i < efforts.len() && i + 1 < efforts.len() {
                            index = i + 1;
                        }
                    },
                    None => {},
                }
                Some(efforts[index])
            }
        };
        self.reasoning_effort = next;
    }

    /// Puts a command in front of those that were used.
    pub fn remember_command(&mut self, command: &str)
        ensures
            final(self).deep_view() == (ConfigView {
                recent_commands: remember(old(self).deep_view().recent_commands, command@),
                ..old(self).deep_view()
            }),
    {
        remember_name(&mut self.recent_commands, command);
    }

    /// What is kept of the settings between runs.
    pub fn persist_settings(&self) -> (result: PersistedSettings)
        ensures
            result.deep_view() == (SettingsView {
                model: Some(self.model@),
                reasoning_effort: self.reasoning_effort,
                recent_models: self.recent_models.deep_view(),
                recent_commands: self.recent_commands.deep_view(),
            }),
    {
        PersistedSettings {
            model: Some(self.model.clone()),
            reasoning_effort: self.reasoning_effort,
            recent_models: clone_texts(&self.recent_models),
            recent_commands: clone_texts(&self.recent_commands),
        }
    }

    /// Keeps an effort that the model offers, else sets the one it starts with.
    pub fn normalize_reasoning_effort(&mut self)
        requires
            old(self).models@.len() > 0,
        ensures
            final(self).deep_view() == with_offered_effort(old(self).deep_view()),
    {
        let keep = match self.reasoning_effort {
            Some(effort) => offers(self.active_model(), effort),
            None => false,
        };
        if !keep {
            let effort = self.active_model().reasoning_effort;
            self.reasoning_effort = effort;
        }
    }
}

/// An effort that the model offers, else the one it starts with.
pub open spec fn with_offered_effort(config: ConfigView) -> ConfigView {
    let model = active(config);
    match config.reasoning_effort {
        Some(effort) if model.reasoning_efforts.contains(effort) => config,
        _ => ConfigView { reasoning_effort: model.reasoning_effort, ..config },
    }
}

/// The first index from `from` on that holds `effort`; the length where none does.
pub open spec fn find_effort(
    efforts: Seq<ReasoningEffort>,
    effort: ReasoningEffort,
    from: int,
) -> int
    decreases efforts.len() - from,
{
    if from < 0 || from >= efforts.len() {
        efforts.len() as int
    } else if efforts[from] == effort {
        from
    } else {
        find_effort(efforts, effort, from + 1)
    }
}

/// The effort behind `current`; the first behind the last, and where `current` is
/// none of them.
pub open spec fn next_effort(
    efforts: Seq<ReasoningEffort>,
    current: Option<ReasoningEffort>,
) -> Option<ReasoningEffort> {
    if efforts.len() == 0 {
        None
    } else {
        match current {
            Some(effort) => {
                let i = find_effort(efforts, effort, 0);
                if i + 1 < efforts.len() {
                    Some(efforts[i + 1])
                } else {
                    Some(efforts[0])
                }
            },
            None => Some(efforts[0]),
        }
    }
}

// ---------------------------------------------------------------------------
// Validity
// ---------------------------------------------------------------------------

/// Whether a name is that of a provider.
pub open spec fn knows_provider(providers: Seq<ProviderView>, name: Seq<char>) -> bool {
    exists|i: int| 0 <= i < providers.len() && (#[trigger] providers[i]).name == name
}

/// What is wrong with the provider at `i`.
pub open spec fn provider_fault(providers: Seq<ProviderView>, i: int) -> Option<Seq<char>> {
    let provider = providers[i];
    if provider.name.len() == 0 {
        Some("provider name cannot be empty"@)
    } else if provider.base_url.len() == 0 {
        Some("provider "@ + provider.name + " has an empty base_url"@)
    } else if knows_provider(providers.take(i), provider.name) {
        Some("duplicate provider name: "@ + provider.name)
    } else {
        None
    }
}

/// The first fault of the providers from `i` on.
pub open spec fn providers_fault(providers: Seq<ProviderView>, i: int) -> Option<Seq<char>>
    decreases providers.len() - i,
{
    if i < 0 || i >= providers.len() {
        None
    } else {
        match provider_fault(providers, i) {
            Some(fault) => Some(fault),
            None => providers_fault(providers, i + 1),
        }
    }
}

/// The providers that are set, else the one endpoint that is.
pub open spec fn effective_providers(config: ConfigView) -> Seq<ProviderView> {
    if config.providers.len() == 0 {
        seq![
            ProviderView {
                name: "default"@,
                base_url: config.base_url,
                api_key: config.api_key,
                api: ProviderApi::Responses,
            },
        ]
    } else {
        config.providers
    }
}

/// The models that are set, else the one that is named.
pub open spec fn effective_models(config: ConfigView) -> Seq<ModelView> {
    if config.models.len() == 0 {
        seq![ModelView { name: config.model, id: config.model, ..default_model() }]
    } else {
        config.models
    }
}

/// A model with what it leaves open filled in: a provider, and a name or an id from
/// the other.
pub open spec fn completed(model: ModelView, providers: Seq<ProviderView>) -> ModelView {
    let provider = if model.provider.len() == 0 || (model.provider == "default"@
        && !knows_provider(providers, "default"@) && providers.len() == 1) {
        providers[0].name
    } else {
        model.provider
    };
    let id = if model.id.len() == 0 {
        model.name
    } else {
        model.id
    };
    let name = if model.name.len() == 0 {
        id
    } else {
        model.name
    };
    ModelView { provider, id, name, ..model }
}

/// What is wrong with a model whose gaps are filled.
pub open spec fn model_fault(model: ModelView, providers: Seq<ProviderView>) -> Option<Seq<char>> {
    if model.max_context_tokens == 0 {
        Some("model "@ + model.name + " has zero max_context_tokens"@)
    } else if !knows_provider(providers, model.provider) {
        Some("model "@ + model.name + " references unknown provider "@ + model.provider)
    } else {
        None
    }
}

/// The models with their gaps filled.
pub open spec fn completed_models(config: ConfigView) -> Seq<ModelView> {
    let providers = effective_providers(config);
    effective_models(config).map_values(|m: ModelView| completed(m, providers))
}

/// The first fault of the models from `i` on.
pub open spec fn models_fault(
    models: Seq<ModelView>,
    providers: Seq<ProviderView>,
    i: int,
) -> Option<Seq<char>>
    decreases models.len() - i,
{
    if i < 0 || i >= models.len() {
        None
    } else {
        match model_fault(models[i], providers) {
            Some(fault) => Some(fault),
            None => models_fault(models, providers, i + 1),
        }
    }
}

/// The single-precision number with these bits lies between zero and one.
pub open spec fn is_share(bits: u32) -> bool {
    bits <= ONE || bits == MINUS_ZERO
}

/// What is wrong with the settings.
pub open spec fn config_fault(config: ConfigView) -> Option<Seq<char>> {
    let providers = effective_providers(config);
    match providers_fault(providers, 0) {
        Some(fault) => Some(fault),
        None => match models_fault(completed_models(config), providers, 0) {
            Some(fault) => Some(fault),
            None => if is_share(config.compaction_threshold) {
                None
            } else {
                Some("compaction_threshold must be between 0 and 1"@)
            },
        },
    }
}

/// The settings with their gaps filled. The model that is set is named by its name;
/// one that is not known becomes the only model where none was set, and else the
/// first model takes its place.
pub open spec fn normalized(config: ConfigView) -> ConfigView {
    let models = completed_models(config);
    let found = find_model(models, config.model, 0);
    if found < models.len() {
        ConfigView {
            providers: effective_providers(config),
            models,
            model: models[found].name,
            ..config
        }
    } else if models.len() == 1 && models[0] == default_model() {
        ConfigView {
            providers: effective_providers(config),
            models: seq![ModelView { name: config.model, id: config.model, ..models[0] }],
            ..config
        }
    } else {
        ConfigView {
            providers: effective_providers(config),
            models,
            model: models[0].name,
            ..config
        }
    }
}

/// The index of the first model from `i` on with a fault; the number of models where none
/// has one.
pub open spec fn faulty_model(
    models: Seq<ModelView>,
    providers: Seq<ProviderView>,
    i: int,
) -> int
    decreases models.len() - i,
{
    if i < 0 || i >= models.len() {
        models.len() as int
    } else if model_fault(models[i], providers) is Some {
        i
    } else {
        faulty_model(models, providers, i + 1)
    }
}

/// What is left of settings with a fault: their gaps are filled as far as the first fault.
pub open spec fn partly_normalized(config: ConfigView) -> ConfigView {
    let providers = effective_providers(config);
    let given = effective_models(config);
    let done = completed_models(config);
    let faulty = faulty_model(done, providers, 0);
    if providers_fault(providers, 0) is Some {
        ConfigView { providers, ..config }
    } else if models_fault(done, providers, 0) is Some {
        ConfigView {
            providers,
            models: Seq::new(
                given.len(),
                |i: int|
                    if i <= faulty {
                        done[i]
                    } else {
                        given[i]
                    },
            ),
            ..config
        }
    } else {
        normalized(config)
    }
}

/// Whether `name` is that of one of the first `n` providers.
fn has_provider(providers: &Vec<ProviderConfig>, n: usize, name: &str) -> (result: bool)
    requires
        n <= providers@.len(),
    ensures
        result == knows_provider(providers.deep_view().take(n as int), name@),
{
    let ghost all = providers.deep_view().take(n as int);
    let mut i: usize = 0;
    while i < n
        invariant
            i <= n <= providers@.len(),
            all == providers.deep_view().take(n as int),
            forall|k: int| 0 <= k < i ==> (#[trigger] all[k]).name != name@,
        decreases n - i,
    {
        assert(all[i as int] == providers@[i as int].deep_view());
        if text::same(providers[i].name.as_str(), name) {
            return true;
        }
        i += 1;
    }
    false
}

fn check_providers(providers: &Vec<ProviderConfig>) -> (result: Result<(), String>)
    ensures
        match result {
            Ok(_) => providers_fault(providers.deep_view(), 0) is None,
            Err(error) => providers_fault(providers.deep_view(), 0) == Some(error@),
        },
{
    let ghost all = providers.deep_view();
    let mut i: usize = 0;
    while i < providers.len()
        invariant
            all == providers.deep_view(),
            i <= providers@.len(),
            providers_fault(all, 0) == providers_fault(all, i as int),
        decreases providers@.len() - i,
    {
        assert(all[i as int] == providers@[i as int].deep_view());
        let provider = &providers[i];
        if provider.name.as_str().is_empty() {
            return Err("provider name cannot be empty".to_owned());
        }
        if provider.base_url.as_str().is_empty() {
            return Err(
                text::join_three("provider ", provider.name.as_str(), " has an empty base_url"),
            );
        }
        if has_provider(providers, i, provider.name.as_str()) {
            return Err(text::join_two("duplicate provider name: ", provider.name.as_str()));
        }
        i += 1;
    }
    Ok(())
}

fn complete(model: &ModelConfig, providers: &Vec<ProviderConfig>) -> (result: ModelConfig)
    requires
        providers@.len() > 0,
    ensures
        result.deep_view() == completed(model.deep_view(), providers.deep_view()),
{
    let ghost all = providers.deep_view();
    assert(all.take(all.len() as int) =~= all);
    let mut result = model.clone();
    if model.provider.as_str().is_empty() || (text::same(model.provider.as_str(), "default")
        && !has_provider(providers, providers.len(), "default") && providers.len() == 1) {
        result.provider = providers[0].name.clone();
    }
    if model.id.as_str().is_empty() {
        result.id = model.name.clone();
    }
    if model.name.as_str().is_empty() {
        result.name = result.id.clone();
    }
    result
}

fn check_model(model: &ModelConfig, providers: &Vec<ProviderConfig>) -> (result: Result<
    (),
    String,
>)
    ensures
        match result {
            Ok(_) => model_fault(model.deep_view(), providers.deep_view()) is None,
            Err(error) => model_fault(model.deep_view(), providers.deep_view()) == Some(error@),
        },
{
    let ghost all = providers.deep_view();
    assert(all.take(all.len() as int) =~= all);
    if model.max_context_tokens == 0 {
        return Err(
            text::join_three("model ", model.name.as_str(), " has zero max_context_tokens"),
        );
    }
    if !has_provider(providers, providers.len(), model.provider.as_str()) {
        let mut error = text::join_three(
            "model ",
            model.name.as_str(),
            " references unknown provider ",
        );
        error.append(model.provider.as_str());
        return Err(error);
    }
    Ok(())
}

impl Config {
    /// Fills the gaps of the settings, or says what is wrong with them; then the gaps are
    /// filled as far as the first fault.
    pub fn normalize(&mut self) -> (result: Result<(), String>)
        ensures
            match result {
                Ok(_) => {
                    &&& config_fault(old(self).deep_view()) is None
                    &&& final(self).deep_view() == normalized(old(self).deep_view())
                },
                Err(error) => {
                    &&& config_fault(old(self).deep_view()) == Some(error@)
                    &&& final(self).deep_view() == partly_normalized(old(self).deep_view())
                },
            },
    {
        let ghost before = self.deep_view();
        let ghost known = effective_providers(before);
        let ghost listed = effective_models(before);
        let ghost done = completed_models(before);
        if self.providers.len() == 0 {
            let provider = ProviderConfig {
                name: "default".to_owned(),
                base_url: self.base_url.clone(),
                api_key: self.api_key.clone(),
                api: ProviderApi::Responses,
            };
            self.providers.push(provider);
        }
        assert(self.providers.deep_view() =~= known);
        match check_providers(&self.providers) {
            Ok(_) => {},
            Err(error) => {
                return Err(error);
            },
        }
        if self.models.len() == 0 {
            let mut model = ModelConfig::default();
            model.name = self.model.clone();
            model.id = self.model.clone();
            self.models.push(model);
        }
        assert(self.models.deep_view() =~= listed);
        let mut i: usize = 0;
        while i < self.models.len()
            invariant
                before == old(self).deep_view(),
                listed == effective_models(before),
                known == effective_providers(before),
                done == completed_models(before),
                self.deep_view() == (ConfigView {
                    providers: known,
                    models: self.models.deep_view(),
                    ..before
                }),
                self.providers.deep_view() == known,
                providers_fault(known, 0) is None,
                self.models@.len() == listed.len(),
                i <= self.models@.len(),
                forall|k: int| 0 <= k < i ==> (#[trigger] self.models@[k]).deep_view() == done[k],
                forall|k: int|
                    i <= k < self.models@.len() ==> (#[trigger] self.models@[k]).deep_view()
                        == listed[k],
                models_fault(done, known, 0) == models_fault(done, known, i as int),
                faulty_model(done, known, 0) == faulty_model(done, known, i as int),
            decreases self.models@.len() - i,
        {
            assert(listed[i as int] == self.models@[i as int].deep_view());
            let model = complete(&self.models[i], &self.providers);
            assert(model.deep_view() == done[i as int]);
            let checked = check_model(&model, &self.providers);
            self.models[i] = model;
            match checked {
                Ok(_) => {},
                Err(error) => {
                    assert(self.models.deep_view() =~= partly_normalized(before).models);
                    return Err(error);
                },
            }
            i += 1;
        }
        assert(self.models.deep_view() =~= done);
        match position(&self.models, self.model.as_str()) {
            Some(found) => {
                assert(done[found as int] == self.models@[found as int].deep_view());
                self.model = self.models[found].name.clone();
            },
            None => {
                assert(done[0] == self.models@[0].deep_view());
                if self.models.len() == 1 && is_default(&self.models[0]) {
                    let mut model = self.models[0].clone();
                    model.name = self.model.clone();
                    model.id = self.model.clone();
                    self.models[0] = model;
                    assert(self.models.deep_view() =~= normalized(before).models);
                } else {
                    self.model = self.models[0].name.clone();
                }
            },
        }
        if self.compaction_threshold > ONE && self.compaction_threshold != MINUS_ZERO {
            return Err("compaction_threshold must be between 0 and 1".to_owned());
        }
        Ok(())
    }

    /// Takes over what was kept of the settings.
    pub fn load_settings(&mut self, settings: &PersistedSettings) -> (result: Result<(), String>)
        ensures
            match result {
                Ok(_) => final(self).deep_view() == with_settings(
                    old(self).deep_view(),
                    settings.deep_view(),
                ) && (settings.model matches Some(model) ==> find_model(
                    old(self).deep_view().models,
                    model@,
                    0,
                ) < old(self).models@.len()),
                Err(error) => {
                    &&& settings.model matches Some(model) && find_model(
                        old(self).deep_view().models,
                        model@,
                        0,
                    ) == old(self).models@.len() && error@ == "unknown model: "@ + model@
                    &&& *final(self) == *old(self)
                },
            },
    {
        match &settings.model {
            Some(model) => match self.select_model(model.as_str()) {
                Ok(_) => {},
                Err(error) => {
                    return Err(error);
                },
            },
            None => {},
        }
        let ghost chosen = self.deep_view();
        let ghost all = settings.recent_models.deep_view();
        let ghost keep = is_model_name(chosen.models);
        let mut recent: Vec<String> = Vec::new();
        let mut i: usize = 0;
        proof {
            reveal(Seq::filter);
            assert(recent.deep_view() =~= all.take(0).filter(keep));
        }
        while i < settings.recent_models.len()
            invariant
                chosen == self.deep_view(),
                all == settings.recent_models.deep_view(),
                keep == is_model_name(chosen.models),
                i <= settings.recent_models@.len(),
                recent.deep_view() == all.take(i as int).filter(keep),
            decreases settings.recent_models@.len() - i,
        {
            let ghost before = recent.deep_view();
            let name = &settings.recent_models[i];
            proof {
                reveal(Seq::filter);
                assert(all.take(i + 1).drop_last() =~= all.take(i as int));
                assert(all.take(i + 1).last() == name@);
            }
            if has_model_name(&self.models, name.as_str()) {
                recent.push(name.clone());
                assert(recent.deep_view() =~= before.push(name@));
            }
            i += 1;
        }
        assert(all.take(i as int) =~= all);
        self.recent_models = recent;
        self.recent_commands = clone_texts(&settings.recent_commands);
        self.remember_model();
        match settings.reasoning_effort {
            Some(effort) => {
                self.reasoning_effort = Some(effort);
            },
            None => {},
        }
        Ok(())
    }
}

/// Any name that is that of a model.
pub open spec fn is_model_name(models: Seq<ModelView>) -> spec_fn(Seq<char>) -> bool {
    |n: Seq<char>| exists|i: int| 0 <= i < models.len() && (#[trigger] models[i]).name == n
}

fn has_model_name(models: &Vec<ModelConfig>, name: &str) -> (result: bool)
    ensures
        result == is_model_name(models.deep_view())(name@),
{
    let ghost all = models.deep_view();
    let mut i: usize = 0;
    while i < models.len()
        invariant
            all == models.deep_view(),
            i <= models@.len(),
            forall|k: int| 0 <= k < i ==> (#[trigger] all[k]).name != name@,
        decreases models@.len() - i,
    {
        assert(all[i as int] == models@[i as int].deep_view());
        if text::same(models[i].name.as_str(), name) {
            return true;
        }
        i += 1;
    }
    false
}

/// Settings with what was kept of them.
pub open spec fn with_settings(config: ConfigView, settings: SettingsView) -> ConfigView {
    let model = match settings.model {
        Some(model) => config.models[find_model(config.models, model, 0)].name,
        None => config.model,
    };
    ConfigView {
        model,
        recent_models: remember(
            settings.recent_models.filter(is_model_name(config.models)),
            model,
        ),
        recent_commands: settings.recent_commands,
        reasoning_effort: match settings.reasoning_effort {
            Some(effort) => Some(effort),
            None => config.reasoning_effort,
        },
        ..config
    }
}

/// Settings without gaps: every provider has a name of its own and an endpoint,
/// every model a known provider and room for a context, the model that is set is
/// one of them, and the threshold is a share.
pub open spec fn is_valid(config: ConfigView) -> bool {
    &&& config.providers.len() > 0
    &&& forall|i: int|
        0 <= i < config.providers.len() ==> (#[trigger] config.providers[i]).name.len() > 0
            && config.providers[i].base_url.len() > 0
    &&& forall|i: int, j: int|
        0 <= i < j < config.providers.len() ==> (#[trigger] config.providers[i]).name != (
        #[trigger] config.providers[j]).name
    &&& config.models.len() > 0
    &&& forall|i: int|
        0 <= i < config.models.len() ==> knows_provider(
            config.providers,
            (#[trigger] config.models[i]).provider,
        ) && config.models[i].max_context_tokens > 0
    &&& find_model(config.models, config.model, 0) < config.models.len()
    &&& is_share(config.compaction_threshold)
}

proof fn no_provider_fault(providers: Seq<ProviderView>, from: int)
    requires
        0 <= from,
        providers_fault(providers, from) is None,
    ensures
        forall|i: int|
            from <= i < providers.len() ==> provider_fault(providers, i) is None,
    decreases providers.len() - from,
{
    if from < providers.len() {
        no_provider_fault(providers, from + 1);
    }
}

proof fn no_model_fault(models: Seq<ModelView>, providers: Seq<ProviderView>, from: int)
    requires
        0 <= from,
        models_fault(models, providers, from) is None,
    ensures
        forall|i: int|
            from <= i < models.len() ==> model_fault(#[trigger] models[i], providers) is None,
    decreases models.len() - from,
{
    if from < models.len() {
        no_model_fault(models, providers, from + 1);
    }
}

proof fn find_model_hit(models: Seq<ModelView>, key: Seq<char>, at: int, from: int)
    requires
        0 <= from <= at < models.len(),
        goes_by(models[at], key),
    ensures
        find_model(models, key, from) <= at,
    decreases at - from,
{
    if from < at && !goes_by(models[from], key) {
        find_model_hit(models, key, at, from + 1);
    }
}

/// Settings that were normalized are valid.
pub proof fn normalize_law(config: ConfigView)
    requires
        config_fault(config) is None,
    ensures
        is_valid(normalized(config)),
{
    let providers = effective_providers(config);
    let models = completed_models(config);
    let done = normalized(config);
    no_provider_fault(providers, 0);
    no_model_fault(models, providers, 0);
    assert forall|i: int| 0 <= i < providers.len() implies (
    #[trigger] providers[i]).name.len() > 0 && providers[i].base_url.len() > 0 by {
        assert(provider_fault(providers, i) is None);
    }
    assert forall|i: int, j: int| 0 <= i < j < providers.len() implies (
    #[trigger] providers[i]).name != (#[trigger] providers[j]).name by {
        assert(provider_fault(providers, j) is None);
        assert(providers.take(j)[i] == providers[i]);
    }
    assert(models.len() > 0);
    assert(model_fault(models[0], providers) is None);
    let found = find_model(models, config.model, 0);
    if found < models.len() {
        find_model_bound(models, config.model, 0);
        find_model_hit(models, models[found].name, found, 0);
    } else if models.len() == 1 && models[0] == default_model() {
        find_model_hit(done.models, config.model, 0, 0);
    } else {
        find_model_hit(models, models[0].name, 0, 0);
    }
}

proof fn find_model_bound(models: Seq<ModelView>, key: Seq<char>, from: int)
    requires
        0 <= from,
    ensures
        find_model(models, key, from) < models.len() ==> from <= find_model(models, key, from),
    decreases models.len() - from,
{
    if from < models.len() && !goes_by(models[from], key) {
        find_model_bound(models, key, from + 1);
    }
}

/// The model in use of valid settings is one of their models, goes by the name that
/// is set, and has a known provider.
pub proof fn active_law(config: ConfigView)
    requires
        is_valid(config),
    ensures
        goes_by(active(config), config.model),
        config.models.contains(active(config)),
        knows_provider(config.providers, active(config).provider),
        active(config).max_context_tokens > 0,
{
    find_model_goes(config.models, config.model, 0);
    find_model_bound(config.models, config.model, 0);
}

proof fn find_model_goes(models: Seq<ModelView>, key: Seq<char>, from: int)
    requires
        0 <= from,
    ensures
        find_model(models, key, from) < models.len() ==> goes_by(
            models[find_model(models, key, from)],
            key,
        ),
    decreases models.len() - from,
{
    if from < models.len() && !goes_by(models[from], key) {
        find_model_goes(models, key, from + 1);
    }
}

} // verus!
