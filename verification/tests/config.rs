use rope::config::{
    Args, Config, ModelConfig, PersistedSettings, ProviderApi, ProviderConfig, ToolPolicies,
};
use rope::layers::{
    add_layer, merge, parse_toml, promote_legacy_provider, promote_legacy_tool_names, Toml,
};
use rope::model_catalog::model_config;
use rope::runtime::ReasoningEffort;
use rope::tool::Approval;

fn words(words: &[&str]) -> Vec<String> {
    words.iter().map(|word| word.to_string()).collect()
}

fn toml(document: &str) -> Toml {
    parse_toml(document).unwrap()
}

fn at<'a>(value: &'a Toml, key: &str) -> &'a Toml {
    find(value, key).unwrap()
}

fn find<'a>(value: &'a Toml, key: &str) -> Option<&'a Toml> {
    match value {
        Toml::Table(entries) => entries.iter().find(|entry| entry.0 == key).map(|entry| &entry.1),
        _ => panic!("not a table"),
    }
}

fn item(value: &Toml, index: usize) -> &Toml {
    match value {
        Toml::Array(items) => &items[index],
        _ => panic!("not an array"),
    }
}

fn text(value: &Toml) -> &str {
    match value {
        Toml::Text(text) => text,
        _ => panic!("not a text"),
    }
}

#[test]
fn cli_accepts_only_session_and_one_request() {
    let args =
        Args::try_parse_from(&words(&["rope", "--session", "work", "fix the tests"])).unwrap();
    assert_eq!(args.session.as_deref(), Some("work"));
    assert_eq!(args.request.as_deref(), Some("fix the tests"));
    assert!(Args::try_parse_from(&words(&["rope", "one", "two"])).is_err());
    assert!(Args::try_parse_from(&words(&["rope", "--model", "qwen"])).is_err());
}

#[test]
fn the_session_of_the_command_line_is_opened() {
    let args = Args::try_parse_from(&words(&["rope", "--session", "work"])).unwrap();
    assert_eq!(args.request, None);
    assert_eq!(args.startup().session.as_deref(), Some("work"));
    let args = Args::try_parse_from(&words(&["rope"])).unwrap();
    assert_eq!(args.startup().session, None);
}

#[test]
fn cli_values_override_defaults() {
    let mut config = Config::default();
    config.select_model("qwen").unwrap();
    config.temperature = Some(0.5f32.to_bits());
    config.reasoning_effort = Some(ReasoningEffort::High);

    assert_eq!(config.model_name(), "qwen");
    assert_eq!(config.effective_temperature().map(f32::from_bits), Some(0.5));
    assert_eq!(config.reasoning_effort, Some(ReasoningEffort::High));
}

#[test]
fn local_values_replace_global_values() {
    let mut value = toml(
        r#"temperature = 1.0
[tools]
write = "ask"
"#,
    );
    merge(
        &mut value,
        toml(
            r#"temperature = 0.4
[tools]
write = "allow"
"#,
        ),
    );
    assert_eq!(at(&value, "temperature"), &Toml::Float(0.4f64.to_bits()));
    assert_eq!(text(at(at(&value, "tools"), "write")), "allow");
}

#[test]
fn legacy_endpoint_layer_replaces_named_providers() {
    let mut value = toml(
        r#"
[[providers]]
name = "remote"
base_url = "https://remote.example/v1"
"#,
    );
    let mut overlay = toml(
        r#"
base_url = "http://localhost:8000/v1"
api_key = "local-key"
"#,
    );

    promote_legacy_provider(&mut overlay);
    merge(&mut value, overlay);

    let provider = item(at(&value, "providers"), 0);
    assert_eq!(text(at(provider, "name")), "default");
    assert_eq!(text(at(provider, "base_url")), "http://localhost:8000/v1");
    assert_eq!(text(at(provider, "api_key")), "local-key");
}

#[test]
fn legacy_tool_policy_names_are_promoted() {
    let mut value = toml(
        r#"[tools]
grep = "deny"
glob = "ask""#,
    );

    promote_legacy_tool_names(&mut value);

    let tools = at(&value, "tools");
    assert_eq!(text(at(tools, "search_files")), "deny");
    assert_eq!(text(at(tools, "list_files")), "ask");
    assert!(find(tools, "grep").is_none());
    assert!(find(tools, "glob").is_none());
}

#[test]
fn a_layer_is_brought_up_to_date_and_merged() {
    let mut value = toml("model = \"one\"\n[tools]\nread = \"deny\"\n");
    add_layer(&mut value, "base_url = \"http://localhost:8000/v1\"\n[tools]\ngrep = \"ask\"\n")
        .unwrap();
    assert_eq!(text(at(&value, "model")), "one");
    assert_eq!(text(at(at(&value, "tools"), "read")), "deny");
    assert_eq!(text(at(at(&value, "tools"), "search_files")), "ask");
    assert_eq!(text(at(item(at(&value, "providers"), 0), "name")), "default");
}

#[test]
fn a_layer_that_is_no_document_changes_nothing() {
    let mut value = toml("model = \"one\"\n");
    assert!(add_layer(&mut value, "model = ").is_err());
    assert_eq!(value, toml("model = \"one\"\n"));
}

#[test]
fn documents_keep_every_kind_of_value() {
    let value = toml("a = 1\nb = true\nc = [\"x\", \"y\"]\nd = 1979-05-27\ne = -2.5\n");
    assert_eq!(at(&value, "a"), &Toml::Integer(1));
    assert_eq!(at(&value, "b"), &Toml::Boolean(true));
    assert_eq!(text(item(at(&value, "c"), 1)), "y");
    assert_eq!(at(&value, "d"), &Toml::Datetime("1979-05-27".into()));
    assert_eq!(at(&value, "e"), &Toml::Float((-2.5f64).to_bits()));
}

#[test]
fn model_temperature_is_used_without_global_override() {
    let mut config = Config::default();
    config.models[0].temperature = Some(0.7f32.to_bits());
    assert_eq!(config.effective_temperature().map(f32::from_bits), Some(0.7));
}

#[test]
fn omitted_model_name_defaults_to_api_id() {
    let mut config = Config {
        model: "api/qwen".into(),
        models: vec![ModelConfig {
            name: String::new(),
            id: "api/qwen".into(),
            max_context_tokens: 32768,
            ..ModelConfig::default()
        }],
        ..Config::default()
    };
    config.normalize().unwrap();

    assert_eq!(config.models[0].name, "api/qwen");
    assert_eq!(config.model_name(), "api/qwen");
    assert_eq!(config.model_id(), "api/qwen");
}

#[test]
fn legacy_endpoint_becomes_the_default_provider() {
    let mut config = Config {
        base_url: "https://legacy.example/v1".into(),
        api_key: "secret".into(),
        model: "legacy-model".into(),
        models: vec![ModelConfig {
            name: String::new(),
            id: "legacy-model".into(),
            max_context_tokens: 32768,
            ..ModelConfig::default()
        }],
        ..Config::default()
    };

    config.normalize().unwrap();

    assert_eq!(config.providers.len(), 1);
    assert_eq!(config.providers[0].name, "default");
    assert_eq!(config.providers[0].base_url, "https://legacy.example/v1");
    assert_eq!(config.providers[0].api_key, "secret");
    assert_eq!(config.provider_name(), "default");
}

#[test]
fn models_bind_to_named_providers() {
    let mut config = Config {
        model: "remote-model".into(),
        providers: vec![ProviderConfig {
            name: "remote".into(),
            base_url: "https://remote.example/v1".into(),
            ..ProviderConfig::default()
        }],
        models: vec![ModelConfig {
            name: "remote-model".into(),
            provider: "remote".into(),
            id: "api-model".into(),
            max_context_tokens: 32768,
            ..ModelConfig::default()
        }],
        ..Config::default()
    };

    config.normalize().unwrap();

    assert_eq!(config.provider_name(), "remote");
    assert_eq!(config.model_id(), "api-model");
}

#[test]
fn switching_models_uses_that_models_reasoning_default() {
    let mut config = Config {
        models: vec![
            model_config("gpt-4.1".into()),
            model_config("Qwen/Qwen3.8-27B".into()),
        ],
        model: "gpt-4.1".into(),
        reasoning_effort: None,
        ..Config::default()
    };

    config.set_model("Qwen/Qwen3.8-27B").unwrap();

    assert_eq!(config.model_id(), "Qwen/Qwen3.8-27B");
    assert_eq!(config.recent_models[0], "Qwen/Qwen3.8-27B");
    assert_eq!(config.persist_settings().recent_models, ["Qwen/Qwen3.8-27B"]);
    assert_eq!(config.effective_reasoning_effort(), Some(ReasoningEffort::XHigh));
}

#[test]
fn recently_used_commands_are_persisted_in_order() {
    let mut config = Config::default();

    config.remember_command("/save");
    config.remember_command("/tools");
    config.remember_command("/save");

    assert_eq!(config.recent_commands, ["/save", "/tools"]);
    assert_eq!(config.persist_settings().recent_commands, ["/save", "/tools"]);
}

#[test]
fn only_twelve_commands_are_remembered() {
    let mut config = Config::default();
    for number in 0..20 {
        config.remember_command(&format!("/{number}"));
    }
    assert_eq!(config.recent_commands.len(), 12);
    assert_eq!(config.recent_commands[0], "/19");
    assert_eq!(config.recent_commands[11], "/8");
}

#[test]
fn unknown_models_are_refused() {
    let mut config = Config::default();
    assert_eq!(config.select_model("other").unwrap_err(), "unknown model: other");
    assert_eq!(config, Config::default());
}

#[test]
fn efforts_are_offered_in_turn() {
    let mut config = Config::default();
    assert_eq!(config.reasoning_effort, Some(ReasoningEffort::XHigh));
    config.next_reasoning_effort();
    assert_eq!(config.reasoning_effort, Some(ReasoningEffort::Low));
    config.next_reasoning_effort();
    assert_eq!(config.reasoning_effort, Some(ReasoningEffort::Medium));
    assert_eq!(config.light_reasoning_effort(), Some(ReasoningEffort::Low));
    config.models[0].reasoning_efforts.clear();
    config.next_reasoning_effort();
    assert_eq!(config.reasoning_effort, None);
}

#[test]
fn side_tasks_take_the_least_effort_with_which_a_model_thinks() {
    let mut config = Config::default();
    config.models[0].reasoning_efforts = vec![
        ReasoningEffort::Off,
        ReasoningEffort::Low,
        ReasoningEffort::Medium,
    ];
    assert_eq!(config.light_reasoning_effort(), Some(ReasoningEffort::Low));
    config.models[0].reasoning_efforts = vec![ReasoningEffort::Off];
    assert_eq!(config.light_reasoning_effort(), Some(ReasoningEffort::Off));
    config.models[0].reasoning_efforts.clear();
    assert_eq!(config.light_reasoning_effort(), None);
}

#[test]
fn an_effort_that_is_not_offered_is_replaced() {
    let mut config = Config::default();
    config.reasoning_effort = Some(ReasoningEffort::Max);
    assert_eq!(config.effective_reasoning_effort(), None);
    config.normalize_reasoning_effort();
    assert_eq!(config.reasoning_effort, Some(ReasoningEffort::XHigh));
}

#[test]
fn settings_that_were_kept_are_taken_up() {
    let mut config = Config {
        models: vec![model_config("gpt-4.1".into()), model_config("gpt-5".into())],
        model: "gpt-4.1".into(),
        ..Config::default()
    };
    config
        .load_settings(&PersistedSettings {
            model: Some("gpt-5".into()),
            reasoning_effort: Some(ReasoningEffort::Minimal),
            recent_models: vec!["gpt-5".into()],
            recent_commands: vec!["/save".into()],
        })
        .unwrap();
    assert_eq!(config.model, "gpt-5");
    assert_eq!(config.reasoning_effort, Some(ReasoningEffort::Minimal));
    assert_eq!(config.recent_commands, ["/save"]);
}

#[test]
fn protocols_have_labels() {
    assert_eq!(ProviderApi::Responses.label(), "Responses");
    assert_eq!(ProviderApi::ChatCompletions.label(), "Chat Completions");
    assert_eq!(ProviderConfig::default().api, ProviderApi::Responses);
}

#[test]
fn reading_needs_no_approval_by_default() {
    let tools = ToolPolicies::default();
    assert_eq!(tools.read, Approval::Allow);
    assert_eq!(tools.search_files, Approval::Allow);
    assert_eq!(tools.write, Approval::Ask);
    assert_eq!(tools.external, Approval::Ask);
}

fn normalized_error(config: Config) -> String {
    let mut config = config;
    config.normalize().unwrap_err()
}

#[test]
fn faults_of_a_configuration_are_told() {
    let provider = |name: &str, base_url: &str| ProviderConfig {
        name: name.into(),
        base_url: base_url.into(),
        ..ProviderConfig::default()
    };
    assert_eq!(
        normalized_error(Config {
            providers: vec![provider("", "http://a")],
            ..Config::default()
        }),
        "provider name cannot be empty"
    );
    assert_eq!(
        normalized_error(Config {
            providers: vec![provider("a", "")],
            ..Config::default()
        }),
        "provider a has an empty base_url"
    );
    assert_eq!(
        normalized_error(Config {
            providers: vec![provider("a", "http://a"), provider("a", "http://b")],
            ..Config::default()
        }),
        "duplicate provider name: a"
    );
    assert_eq!(
        normalized_error(Config {
            models: vec![ModelConfig {
                max_context_tokens: 0,
                ..ModelConfig::default()
            }],
            ..Config::default()
        }),
        "model qwen has zero max_context_tokens"
    );
    assert_eq!(
        normalized_error(Config {
            models: vec![ModelConfig {
                provider: "other".into(),
                ..ModelConfig::default()
            }],
            ..Config::default()
        }),
        "model qwen references unknown provider other"
    );
    for threshold in [-0.5f32, 1.5, f32::NAN, f32::INFINITY, -f32::INFINITY] {
        assert_eq!(
            normalized_error(Config {
                compaction_threshold: threshold.to_bits(),
                ..Config::default()
            }),
            "compaction_threshold must be between 0 and 1"
        );
    }
    for threshold in [-0.0f32, 0.0, 0.75, 1.0, f32::MIN_POSITIVE] {
        let mut config = Config {
            compaction_threshold: threshold.to_bits(),
            ..Config::default()
        };
        assert_eq!(config.normalize(), Ok(()));
    }
}

#[test]
fn a_model_that_is_not_there_is_replaced() {
    let mut config = Config {
        model: "gone".into(),
        models: vec![model_config("gpt-5".into()), model_config("gpt-4.1".into())],
        ..Config::default()
    };
    config.normalize().unwrap();
    assert_eq!(config.model, "gpt-5");
    assert_eq!(config.models[0].provider, "default");

    let mut config = Config {
        model: "mine".into(),
        ..Config::default()
    };
    config.normalize().unwrap();
    assert_eq!(config.models[0].name, "mine");
    assert_eq!(config.models[0].id, "mine");
    assert_eq!(config.model, "mine");
}

#[test]
fn gaps_are_filled_as_far_as_the_first_fault() {
    let mut config = Config {
        base_url: "http://a".into(),
        models: vec![
            ModelConfig { id: String::new(), ..ModelConfig::default() },
            ModelConfig { id: String::new(), max_context_tokens: 0, ..ModelConfig::default() },
            ModelConfig { id: String::new(), ..ModelConfig::default() },
        ],
        providers: vec![],
        ..Config::default()
    };
    config.normalize().unwrap_err();
    assert_eq!(config.providers.len(), 1);
    let ids: Vec<&str> = config.models.iter().map(|model| model.id.as_str()).collect();
    assert_eq!(ids, ["qwen", "qwen", ""]);

    let mut config = Config {
        model: "mine".into(),
        compaction_threshold: 2.0f32.to_bits(),
        ..Config::default()
    };
    config.normalize().unwrap_err();
    assert_eq!(config.models[0].name, "mine");

    let mut config = Config {
        providers: vec![ProviderConfig { name: String::new(), ..ProviderConfig::default() }],
        models: vec![],
        ..Config::default()
    };
    config.normalize().unwrap_err();
    assert!(config.models.is_empty());
}
