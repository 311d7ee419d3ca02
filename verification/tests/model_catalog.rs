use rope::model_catalog::{
    known_defaults, model_config, prioritize_openai_models, supports_chat_completions,
};
use rope::runtime::ReasoningEffort;

#[test]
fn qwen_38_uses_official_thinking_defaults() {
    let model = model_config("Qwen/Qwen3.8-27B".into());
    assert_eq!(model.max_context_tokens, 262_144);
    assert_eq!(model.temperature.map(f32::from_bits), Some(1.0));
    assert_eq!(model.reasoning_effort, Some(ReasoningEffort::XHigh));
    assert_eq!(
        model.reasoning_efforts,
        [
            ReasoningEffort::Low,
            ReasoningEffort::Medium,
            ReasoningEffort::XHigh,
        ]
    );
    assert!(model.vision);
}

#[test]
fn filters_known_non_chat_models() {
    assert!(!supports_chat_completions("text-embedding-3-small"));
    assert!(!supports_chat_completions("gpt-image-1"));
    assert!(!supports_chat_completions("gpt-5.5-pro"));
    assert!(supports_chat_completions("local/unknown-chat-model"));
}

#[test]
fn the_part_behind_the_last_slash_decides() {
    assert!(!supports_chat_completions("openai/Whisper-1"));
    assert!(!supports_chat_completions("a/b/tts-1"));
    assert!(supports_chat_completions("whisper/chat"));
    assert!(!supports_chat_completions("o3-deep-research"));
    assert!(!supports_chat_completions("gpt-4o-search-preview"));
    assert!(!supports_chat_completions("gpt-4o-transcribe"));
    assert!(!supports_chat_completions("o1-pro"));
    assert!(supports_chat_completions("local-pro"));
}

#[test]
fn new_openai_models_do_not_send_temperature_with_reasoning() {
    let model = model_config("gpt-5.6-sol".into());
    assert_eq!(model.temperature, None);
    assert_eq!(model.reasoning_effort, Some(ReasoningEffort::Medium));
    assert!(model.reasoning_efforts.contains(&ReasoningEffort::Max));
}

#[test]
fn latest_openai_models_are_pinned_above_the_rest() {
    let mut models = vec![
        model_config("old-model".into()),
        model_config("gpt-5.4-mini".into()),
        model_config("gpt-5.6-sol".into()),
    ];

    prioritize_openai_models(&mut models);

    assert_eq!(models[0].id, "gpt-5.6-sol");
    assert_eq!(models[1].id, "gpt-5.4-mini");
    assert_eq!(models[2].id, "old-model");
}

#[test]
fn models_of_one_rank_keep_their_order() {
    let mut models = vec![
        model_config("zeta".into()),
        model_config("gpt-4o".into()),
        model_config("alpha".into()),
    ];
    prioritize_openai_models(&mut models);
    assert_eq!(models[0].id, "gpt-4o");
    assert_eq!(models[1].id, "zeta");
    assert_eq!(models[2].id, "alpha");
}

#[test]
fn unknown_models_get_modest_defaults() {
    assert_eq!(known_defaults("mystery"), None);
    let model = model_config("mystery".into());
    assert_eq!(model.name, "mystery");
    assert_eq!(model.max_context_tokens, 32_768);
    assert_eq!(model.temperature.map(f32::from_bits), Some(1.0));
    assert_eq!(model.reasoning_effort, None);
    assert!(model.reasoning_efforts.is_empty());
    assert!(!model.vision);
    assert_eq!(model.price_per_token, None);
}

#[test]
fn contexts_of_known_models() {
    for (id, tokens) in [
        ("gpt-5.6", 1_050_000),
        ("gpt-5.5", 1_050_000),
        ("gpt-5.4", 1_050_000),
        ("gpt-5.4-mini", 400_000),
        ("gpt-5.4-nano", 400_000),
        ("gpt-5.2", 400_000),
        ("gpt-5.1", 400_000),
        ("gpt-5", 400_000),
        ("gpt-4.1", 1_047_576),
        ("gpt-4o", 128_000),
        ("gpt-oss-20b", 131_072),
        ("openai/o3", 200_000),
    ] {
        assert_eq!(known_defaults(id).unwrap().max_context_tokens, tokens);
    }
}
