//! What is known of models by their ids.
use crate::config::{ModelConfig, ModelView, ONE};
use crate::order;
use crate::runtime::ReasoningEffort;
use crate::text;
use crate::text::{has_prefix, has_text, lower};
use vstd::prelude::*;
use vstd::string::*;

verus! {

/// The part of `s` behind the last slash, or all of it.
pub open spec fn family(s: Seq<char>) -> Seq<char>
    decreases s.len(),
{
    if s.len() == 0 {
        s
    } else if s.last() == '/' {
        Seq::empty()
    } else {
        family(s.drop_last()).push(s.last())
    }
}

fn family_of(s: &str) -> (result: String)
    ensures
        result@ == family(s@),
{
    let chars = text::to_chars(s);
    let mut from: usize = chars.len();
    proof {
        assert(chars@.take(from as int) =~= chars@);
        assert(chars@.skip(from as int) =~= Seq::empty());
        assert(family(s@) =~= family(chars@.take(from as int)) + chars@.skip(from as int));
    }
    while from > 0 && chars[from - 1] != '/'
        invariant
            chars@ == s@,
            from <= chars@.len(),
            family(s@) == family(chars@.take(from as int)) + chars@.skip(from as int),
        decreases from,
    {
        proof {
            let t = chars@.take(from as int);
            assert(t.drop_last() =~= chars@.take(from - 1));
            assert(family(t) + chars@.skip(from as int) =~= family(chars@.take(from - 1))
                + chars@.skip(from - 1));
        }
        from -= 1;
    }
    proof {
        assert(family(chars@.take(from as int)) =~= Seq::empty());
        assert(chars@.skip(from as int) =~= chars@.subrange(from as int, chars@.len() as int));
        assert(Seq::<char>::empty() + chars@.skip(from as int) =~= chars@.skip(from as int));
    }
    from_end(&chars, from)
}

fn from_end(chars: &Vec<char>, from: usize) -> (result: String)
    requires
        from <= chars@.len(),
    ensures
        result@ == chars@.subrange(from as int, chars@.len() as int),
{
    text::from_chars(chars, from, chars.len())
}

// ---------------------------------------------------------------------------
// Which models can be used
// ---------------------------------------------------------------------------

/// A family of models that do not hold conversations.
pub open spec fn is_other_kind(name: Seq<char>) -> bool {
    ||| has_prefix(name, "babbage"@)
    ||| has_prefix(name, "computer-use"@)
    ||| has_prefix(name, "dall-e"@)
    ||| has_prefix(name, "davinci"@)
    ||| has_prefix(name, "gpt-audio"@)
    ||| has_prefix(name, "gpt-image"@)
    ||| has_prefix(name, "gpt-realtime"@)
    ||| has_prefix(name, "omni-moderation"@)
    ||| has_prefix(name, "sora"@)
    ||| has_prefix(name, "text-embedding"@)
    ||| has_prefix(name, "text-moderation"@)
    ||| has_prefix(name, "tts"@)
    ||| has_prefix(name, "whisper"@)
}

/// A model that holds conversations.
pub open spec fn is_chat_model(id: Seq<char>) -> bool {
    let name = family(lower(id));
    &&& !is_other_kind(name)
    &&& !has_text(name, "deep-research"@)
    &&& !has_text(name, "search-preview"@)
    &&& !has_text(name, "transcribe"@)
    &&& !((has_prefix(name, "gpt-5"@) || has_prefix(name, "o"@)) && has_text(name, "-pro"@))
}

/// Whether a model holds conversations.
pub fn supports_chat_completions(id: &str) -> (result: bool)
    ensures
        result == is_chat_model(id@),
{
    let lowered = text::to_lower(id);
    let family = family_of(lowered.as_str());
    let name = family.as_str();
    let other_kind = text::begins_with(name, "babbage") || text::begins_with(name, "computer-use")
        || text::begins_with(name, "dall-e") || text::begins_with(name, "davinci")
        || text::begins_with(name, "gpt-audio") || text::begins_with(name, "gpt-image")
        || text::begins_with(name, "gpt-realtime") || text::begins_with(name, "omni-moderation")
        || text::begins_with(name, "sora") || text::begins_with(name, "text-embedding")
        || text::begins_with(name, "text-moderation") || text::begins_with(name, "tts")
        || text::begins_with(name, "whisper");
    !other_kind && !text::contains(name, "deep-research") && !text::contains(
        name,
        "search-preview",
    ) && !text::contains(name, "transcribe") && !((text::begins_with(name, "gpt-5")
        || text::begins_with(name, "o")) && text::contains(name, "-pro"))
}

// ---------------------------------------------------------------------------
// Defaults
// ---------------------------------------------------------------------------

/// Sets of efforts that models offer.
#[derive(Clone, Copy, Debug, PartialEq, Eq, Structural)]
pub enum Efforts {
    Nothing,
    Basic,
    Qwen,
    UpToHigh,
    UpToXHigh,
    UpToMax,
    FromMinimal,
}

pub open spec fn efforts_of(efforts: Efforts) -> Seq<ReasoningEffort> {
    match efforts {
        Efforts::Nothing => Seq::empty(),
        Efforts::Basic => seq![
            ReasoningEffort::Low,
            ReasoningEffort::Medium,
            ReasoningEffort::High,
        ],
        Efforts::Qwen => seq![
            ReasoningEffort::Low,
            ReasoningEffort::Medium,
            ReasoningEffort::XHigh,
        ],
        Efforts::UpToHigh => seq![
            ReasoningEffort::Off,
            ReasoningEffort::Low,
            ReasoningEffort::Medium,
            ReasoningEffort::High,
        ],
        Efforts::UpToXHigh => seq![
            ReasoningEffort::Off,
            ReasoningEffort::Low,
            ReasoningEffort::Medium,
            ReasoningEffort::High,
            ReasoningEffort::XHigh,
        ],
        Efforts::UpToMax => seq![
            ReasoningEffort::Off,
            ReasoningEffort::Low,
            ReasoningEffort::Medium,
            ReasoningEffort::High,
            ReasoningEffort::XHigh,
            ReasoningEffort::Max,
        ],
        Efforts::FromMinimal => seq![
            ReasoningEffort::Minimal,
            ReasoningEffort::Low,
            ReasoningEffort::Medium,
            ReasoningEffort::High,
        ],
    }
}

fn effort_list(efforts: Efforts) -> (result: Vec<ReasoningEffort>)
    ensures
        result@ == efforts_of(efforts),
{
    let result = match efforts {
        Efforts::Nothing => Vec::new(),
        Efforts::Basic => vec![ReasoningEffort::Low, ReasoningEffort::Medium, ReasoningEffort::High],
        Efforts::Qwen => vec![ReasoningEffort::Low, ReasoningEffort::Medium, ReasoningEffort::XHigh],
        Efforts::UpToHigh => vec![
            ReasoningEffort::Off,
            ReasoningEffort::Low,
            ReasoningEffort::Medium,
            ReasoningEffort::High,
        ],
        Efforts::UpToXHigh => vec![
            ReasoningEffort::Off,
            ReasoningEffort::Low,
            ReasoningEffort::Medium,
            ReasoningEffort::High,
            ReasoningEffort::XHigh,
        ],
        Efforts::UpToMax => vec![
            ReasoningEffort::Off,
            ReasoningEffort::Low,
            ReasoningEffort::Medium,
            ReasoningEffort::High,
            ReasoningEffort::XHigh,
            ReasoningEffort::Max,
        ],
        Efforts::FromMinimal => vec![
            ReasoningEffort::Minimal,
            ReasoningEffort::Low,
            ReasoningEffort::Medium,
            ReasoningEffort::High,
        ],
    };
    assert(result@ =~= efforts_of(efforts));
    result
}

/// What is known of a model. The temperature is the bit pattern of a single-precision
/// number.
#[derive(Clone, Copy, Debug, PartialEq, Eq, Structural)]
pub struct Defaults {
    pub max_context_tokens: u64,
    pub temperature: Option<u32>,
    pub reasoning_effort: Option<ReasoningEffort>,
    pub efforts: Efforts,
    pub vision: bool,
}

/// What is known of a model with an id in lower case.
pub open spec fn defaults_of(id: Seq<char>) -> Option<Defaults> {
    let name = family(id);
    if has_text(id, "qwen3.8"@) {
        Some(
            Defaults {
                max_context_tokens: 262_144,
                temperature: Some(ONE),
                reasoning_effort: Some(ReasoningEffort::XHigh),
                efforts: Efforts::Qwen,
                vision: true,
            },
        )
    } else if has_text(id, "gpt-5.6"@) {
        Some(
            Defaults {
                max_context_tokens: 1_050_000,
                temperature: None,
                reasoning_effort: Some(ReasoningEffort::Medium),
                efforts: Efforts::UpToMax,
                vision: true,
            },
        )
    } else if has_text(id, "gpt-5.5"@) {
        Some(
            Defaults {
                max_context_tokens: 1_050_000,
                temperature: None,
                reasoning_effort: Some(ReasoningEffort::Medium),
                efforts: Efforts::UpToXHigh,
                vision: true,
            },
        )
    } else if has_text(id, "gpt-5.4"@) {
        Some(
            Defaults {
                max_context_tokens: if has_text(id, "mini"@) || has_text(id, "nano"@) {
                    400_000
                } else {
                    1_050_000
                },
                temperature: None,
                reasoning_effort: Some(ReasoningEffort::Off),
                efforts: Efforts::UpToXHigh,
                vision: true,
            },
        )
    } else if has_text(id, "gpt-5.2"@) {
        Some(
            Defaults {
                max_context_tokens: 400_000,
                temperature: None,
                reasoning_effort: Some(ReasoningEffort::Off),
                efforts: Efforts::UpToXHigh,
                vision: true,
            },
        )
    } else if has_text(id, "gpt-5.1"@) {
        Some(
            Defaults {
                max_context_tokens: 400_000,
                temperature: None,
                reasoning_effort: Some(ReasoningEffort::Off),
                efforts: Efforts::UpToHigh,
                vision: true,
            },
        )
    } else if has_text(id, "gpt-5"@) {
        Some(
            Defaults {
                max_context_tokens: 400_000,
                temperature: None,
                reasoning_effort: Some(ReasoningEffort::Medium),
                efforts: Efforts::FromMinimal,
                vision: true,
            },
        )
    } else if has_text(id, "gpt-4.1"@) {
        Some(
            Defaults {
                max_context_tokens: 1_047_576,
                temperature: Some(ONE),
                reasoning_effort: None,
                efforts: Efforts::Nothing,
                vision: true,
            },
        )
    } else if has_text(id, "gpt-4o"@) {
        Some(
            Defaults {
                max_context_tokens: 128_000,
                temperature: Some(ONE),
                reasoning_effort: None,
                efforts: Efforts::Nothing,
                vision: true,
            },
        )
    } else if has_text(id, "gpt-oss"@) {
        Some(
            Defaults {
                max_context_tokens: 131_072,
                temperature: Some(ONE),
                reasoning_effort: Some(ReasoningEffort::Medium),
                efforts: Efforts::Basic,
                vision: false,
            },
        )
    } else if has_prefix(name, "o1"@) || has_prefix(name, "o3"@) || has_prefix(name, "o4"@) {
        Some(
            Defaults {
                max_context_tokens: 200_000,
                temperature: None,
                reasoning_effort: Some(ReasoningEffort::Medium),
                efforts: Efforts::Basic,
                vision: true,
            },
        )
    } else {
        None
    }
}

/// What is known of a model.
pub fn known_defaults(id: &str) -> (result: Option<Defaults>)
    ensures
        result == defaults_of(lower(id@)),
{
    let lowered = text::to_lower(id);
    let id = lowered.as_str();
    let family = family_of(id);
    let name = family.as_str();
    if text::contains(id, "qwen3.8") {
        Some(
            Defaults {
                max_context_tokens: 262_144,
                temperature: Some(ONE),
                reasoning_effort: Some(ReasoningEffort::XHigh),
                efforts: Efforts::Qwen,
                vision: true,
            },
        )
    } else if text::contains(id, "gpt-5.6") {
        Some(
            Defaults {
                max_context_tokens: 1_050_000,
                temperature: None,
                reasoning_effort: Some(ReasoningEffort::Medium),
                efforts: Efforts::UpToMax,
                vision: true,
            },
        )
    } else if text::contains(id, "gpt-5.5") {
        Some(
            Defaults {
                max_context_tokens: 1_050_000,
                temperature: None,
                reasoning_effort: Some(ReasoningEffort::Medium),
                efforts: Efforts::UpToXHigh,
                vision: true,
            },
        )
    } else if text::contains(id, "gpt-5.4") {
        Some(
            Defaults {
                max_context_tokens: if text::contains(id, "mini") || text::contains(id, "nano") {
                    400_000
                } else {
                    1_050_000
                },
                temperature: None,
                reasoning_effort: Some(ReasoningEffort::Off),
                efforts: Efforts::UpToXHigh,
                vision: true,
            },
        )
    } else if text::contains(id, "gpt-5.2") {
        Some(
            Defaults {
                max_context_tokens: 400_000,
                temperature: None,
                reasoning_effort: Some(ReasoningEffort::Off),
                efforts: Efforts::UpToXHigh,
                vision: true,
            },
        )
    } else if text::contains(id, "gpt-5.1") {
        Some(
            Defaults {
                max_context_tokens: 400_000,
                temperature: None,
                reasoning_effort: Some(ReasoningEffort::Off),
                efforts: Efforts::UpToHigh,
                vision: true,
            },
        )
    } else if text::contains(id, "gpt-5") {
        Some(
            Defaults {
                max_context_tokens: 400_000,
                temperature: None,
                reasoning_effort: Some(ReasoningEffort::Medium),
                efforts: Efforts::FromMinimal,
                vision: true,
            },
        )
    } else if text::contains(id, "gpt-4.1") {
        Some(
            Defaults {
                max_context_tokens: 1_047_576,
                temperature: Some(ONE),
                reasoning_effort: None,
                efforts: Efforts::Nothing,
                vision: true,
            },
        )
    } else if text::contains(id, "gpt-4o") {
        Some(
            Defaults {
                max_context_tokens: 128_000,
                temperature: Some(ONE),
                reasoning_effort: None,
                efforts: Efforts::Nothing,
                vision: true,
            },
        )
    } else if text::contains(id, "gpt-oss") {
        Some(
            Defaults {
                max_context_tokens: 131_072,
                temperature: Some(ONE),
                reasoning_effort: Some(ReasoningEffort::Medium),
                efforts: Efforts::Basic,
                vision: false,
            },
        )
    } else if text::begins_with(name, "o1") || text::begins_with(name, "o3") || text::begins_with(
        name,
        "o4",
    ) {
        Some(
            Defaults {
                max_context_tokens: 200_000,
                temperature: None,
                reasoning_effort: Some(ReasoningEffort::Medium),
                efforts: Efforts::Basic,
                vision: true,
            },
        )
    } else {
        None
    }
}

/// The settings of a model that was found under an id.
pub open spec fn config_of(id: Seq<char>) -> ModelView {
    let known = match defaults_of(lower(id)) {
        Some(known) => known,
        None => Defaults {
            max_context_tokens: 32_768,
            temperature: Some(ONE),
            reasoning_effort: None,
            efforts: Efforts::Nothing,
            vision: false,
        },
    };
    ModelView {
        name: id,
        provider: Seq::empty(),
        id,
        max_context_tokens: known.max_context_tokens,
        temperature: known.temperature,
        reasoning_effort: known.reasoning_effort,
        reasoning_efforts: efforts_of(known.efforts),
        price_per_token: None,
        vision: known.vision,
    }
}

/// The settings of a model that was found under an id.
pub fn model_config(id: String) -> (result: ModelConfig)
    ensures
        result.deep_view() == config_of(id@),
{
    let known = match known_defaults(id.as_str()) {
        Some(known) => known,
        None => Defaults {
            max_context_tokens: 32_768,
            temperature: Some(ONE),
            reasoning_effort: None,
            efforts: Efforts::Nothing,
            vision: false,
        },
    };
    ModelConfig {
        name: id.clone(),
        provider: String::new(),
        id,
        max_context_tokens: known.max_context_tokens,
        temperature: known.temperature,
        reasoning_effort: known.reasoning_effort,
        reasoning_efforts: effort_list(known.efforts),
        price_per_token: None,
        vision: known.vision,
    }
}

/// Every model starts with an effort that it offers, or with none, and has room for a
/// context.
pub proof fn defaults_law(id: Seq<char>)
    ensures
        config_of(id).max_context_tokens > 0,
        config_of(id).reasoning_effort matches Some(effort) ==> config_of(
            id,
        ).reasoning_efforts.contains(effort),
        config_of(id).reasoning_effort is None ==> config_of(id).reasoning_efforts.len() == 0,
{
    let found = config_of(id);
    if let Some(effort) = found.reasoning_effort {
        let known = defaults_of(lower(id))->0;
        let list = efforts_of(known.efforts);
        match known.efforts {
            Efforts::Qwen => {
                assert(list[2] == effort);
            },
            Efforts::UpToMax => {
                assert(list[2] == effort);
            },
            Efforts::UpToXHigh => {
                assert(list[0] == ReasoningEffort::Off);
                assert(list[2] == ReasoningEffort::Medium);
            },
            Efforts::UpToHigh => {
                assert(list[0] == effort);
            },
            Efforts::FromMinimal => {
                assert(list[2] == effort);
            },
            Efforts::Basic => {
                assert(list[1] == effort);
            },
            Efforts::Nothing => {},
        }
    }
}

// ---------------------------------------------------------------------------
// Order
// ---------------------------------------------------------------------------

/// The place of a model of OpenAI: the ones to be offered first have the lowest.
pub open spec fn rank(id: Seq<char>) -> int {
    if id == "gpt-5.6-sol"@ {
        0
    } else if id == "gpt-5.6-terra"@ {
        1
    } else if id == "gpt-5.6-luna"@ {
        2
    } else if id == "gpt-5.6"@ {
        3
    } else if id == "gpt-5.5"@ {
        4
    } else if id == "gpt-5.4"@ {
        5
    } else if id == "gpt-5.4-mini"@ {
        6
    } else if id == "gpt-5.4-nano"@ {
        7
    } else if id == "gpt-5.3-codex"@ {
        8
    } else if id == "gpt-5.2"@ {
        9
    } else if id == "gpt-5.1"@ {
        10
    } else if id == "gpt-5-mini"@ {
        11
    } else if id == "gpt-5-nano"@ {
        12
    } else if id == "gpt-4.1"@ {
        13
    } else if id == "gpt-4.1-mini"@ {
        14
    } else if id == "gpt-4o"@ {
        15
    } else if id == "gpt-4o-mini"@ {
        16
    } else {
        17
    }
}

fn rank_of(id: &str) -> (result: usize)
    ensures
        result == rank(id@),
{
    if text::same(id, "gpt-5.6-sol") {
        0
    } else if text::same(id, "gpt-5.6-terra") {
        1
    } else if text::same(id, "gpt-5.6-luna") {
        2
    } else if text::same(id, "gpt-5.6") {
        3
    } else if text::same(id, "gpt-5.5") {
        4
    } else if text::same(id, "gpt-5.4") {
        5
    } else if text::same(id, "gpt-5.4-mini") {
        6
    } else if text::same(id, "gpt-5.4-nano") {
        7
    } else if text::same(id, "gpt-5.3-codex") {
        8
    } else if text::same(id, "gpt-5.2") {
        9
    } else if text::same(id, "gpt-5.1") {
        10
    } else if text::same(id, "gpt-5-mini") {
        11
    } else if text::same(id, "gpt-5-nano") {
        12
    } else if text::same(id, "gpt-4.1") {
        13
    } else if text::same(id, "gpt-4.1-mini") {
        14
    } else if text::same(id, "gpt-4o") {
        15
    } else if text::same(id, "gpt-4o-mini") {
        16
    } else {
        17
    }
}

pub open spec fn rank_order() -> spec_fn(ModelView, ModelView) -> bool {
    |a: ModelView, b: ModelView| rank(a.id) < rank(b.id)
}

fn ranks_before(a: &ModelConfig, b: &ModelConfig) -> (result: bool)
    ensures
        result == (rank(a.deep_view().id) < rank(b.deep_view().id)),
{
    rank_of(a.id.as_str()) < rank_of(b.id.as_str())
}

/// Puts the models of OpenAI that are to be offered first in front; the others keep
/// their order.
pub fn prioritize_openai_models(models: &mut Vec<ModelConfig>)
    ensures
        final(models).deep_view() == order::sorted(old(models).deep_view(), rank_order()),
{
    let mut all: Vec<ModelConfig> = Vec::new();
    std::mem::swap(&mut all, models);
    *models = order::stable_sort(all, ranks_before, Ghost(rank_order()));
}

/// No model is lost, and none stands in front of one that is to be offered before it.
pub proof fn priority_law(models: Seq<ModelView>)
    ensures
        ({
            let ranked = order::sorted(models, rank_order());
            &&& ranked.to_multiset() == models.to_multiset()
            &&& forall|i: int, j: int|
                0 <= i < j < ranked.len() ==> rank((#[trigger] ranked[i]).id) <= rank(
                    (#[trigger] ranked[j]).id,
                )
        }),
{
    let before = rank_order();
    order::sorted_law(models, before);
    let ranked = order::sorted(models, before);
    assert forall|i: int, j: int| 0 <= i < j < ranked.len() implies rank(
        (#[trigger] ranked[i]).id,
    ) <= rank((#[trigger] ranked[j]).id) by {
        assert(!before(ranked[j], ranked[i]));
    }
}

} // verus!
