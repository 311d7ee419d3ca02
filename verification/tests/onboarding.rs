use rope::config::ProviderConfig;
use rope::model_catalog::model_config;
use rope::onboarding::{
    check_provider_name, choose_key, configured, disambiguate_model_names, discovered_models,
    draw_input, finish_key, is_openai_endpoint, next_word, normalize_endpoint, previous_word,
    provider_name, Choice, Edited, Input, Key, LineEditor,
};
use rope::runtime::ReasoningEffort;

#[test]
fn endpoint_rejects_non_http_urls() {
    assert!(normalize_endpoint("file:///tmp/api").is_err());
    assert_eq!(
        normalize_endpoint("https://example.com/v1/").unwrap(),
        "https://example.com/v1"
    );
}

#[test]
fn faults_of_an_endpoint_are_told() {
    assert_eq!(
        normalize_endpoint("nothing").unwrap_err(),
        "invalid API endpoint: relative URL without a base"
    );
    assert_eq!(
        normalize_endpoint("ftp://example.com").unwrap_err(),
        "API endpoint must be an HTTP(S) URL"
    );
    for endpoint in ["https://example.com/v1?a=b", "https://example.com/v1#a"] {
        assert_eq!(
            normalize_endpoint(endpoint).unwrap_err(),
            "API endpoint cannot contain a query or fragment"
        );
    }
}

#[test]
fn official_endpoint_is_named_openai() {
    assert_eq!(provider_name("https://api.openai.com/v1", 1).as_deref(), Some("OpenAI"));
    assert!(is_openai_endpoint("https://api.openai.com/v1"));
}

#[test]
fn endpoints_are_named_by_their_hosts() {
    assert_eq!(provider_name("http://localhost:8000/v1", 2).as_deref(), Some("local-2"));
    assert_eq!(provider_name("http://127.0.0.1/v1", 3).as_deref(), Some("local-3"));
    assert_eq!(provider_name("https://models.example.com/v1", 1).as_deref(), Some("models"));
    assert_eq!(provider_name("data:text/plain,x", 1).as_deref(), Some("provider"));
    assert_eq!(provider_name("nothing", 1), None);
    assert!(!is_openai_endpoint("https://example.com"));
    assert!(!is_openai_endpoint("nothing"));
}

#[test]
fn duplicate_model_ids_get_provider_qualified_names() {
    let mut models = vec![
        model_config("same-model".into()),
        model_config("same-model".into()),
    ];
    models[0].provider = "one".into();
    models[1].provider = "two".into();

    disambiguate_model_names(&mut models);

    assert_eq!(models[0].name, "one/same-model");
    assert_eq!(models[1].name, "two/same-model");
}

#[test]
fn single_models_keep_their_names() {
    let mut models = vec![model_config("one".into()), model_config("two".into())];
    disambiguate_model_names(&mut models);
    assert_eq!(models[0].name, "one");
    assert_eq!(models[1].name, "two");
}

#[test]
fn word_navigation_uses_shell_boundaries() {
    let value = "hello/api world".chars().collect::<Vec<_>>();
    assert_eq!(previous_word(&value, value.len()), 10);
    assert_eq!(next_word(&value, 0), 6);
}

#[test]
fn words_end_at_the_edges() {
    let value = "  été ".chars().collect::<Vec<_>>();
    assert_eq!(previous_word(&value, value.len()), 2);
    assert_eq!(previous_word(&value, 2), 0);
    assert_eq!(next_word(&value, 2), 6);
    assert_eq!(next_word(&value, 9), 9);
}

fn key(key: Key) -> Input {
    Input::Key {
        key,
        control: false,
        alt: false,
    }
}

fn control(c: char) -> Input {
    Input::Key {
        key: Key::Char(c),
        control: true,
        alt: false,
    }
}

fn alt(key: Key) -> Input {
    Input::Key {
        key,
        control: false,
        alt: true,
    }
}

#[test]
fn a_line_is_edited() {
    let mut line = LineEditor::new("hello world");
    assert_eq!(line.apply(&control('w')), Edited::Open);
    assert_eq!(line.text(), "hello ");
    line.apply(&key(Key::Char('y')));
    assert_eq!(line.text(), "hello y");
    line.apply(&key(Key::Backspace));
    line.apply(&key(Key::Home));
    line.apply(&key(Key::Delete));
    assert_eq!((line.text().as_str(), line.cursor), ("ello ", 0));
    line.apply(&key(Key::Backspace));
    line.apply(&key(Key::Left));
    assert_eq!(line.cursor, 0);
    line.apply(&alt(Key::Right));
    assert_eq!(line.cursor, 5);
    line.apply(&key(Key::Right));
    assert_eq!(line.cursor, 5);
    line.apply(&key(Key::Delete));
    line.apply(&alt(Key::Left));
    assert_eq!(line.cursor, 0);
    line.apply(&Input::Paste("a\nb\u{7f}c".into()));
    assert_eq!((line.text().as_str(), line.cursor), ("abcello ", 3));
    line.apply(&control('u'));
    assert_eq!((line.text().as_str(), line.cursor), ("ello ", 0));
    line.apply(&control('e'));
    assert_eq!(line.cursor, 5);
    line.apply(&control('a'));
    assert_eq!(line.cursor, 0);
    line.apply(&control('x'));
    line.apply(&key(Key::Tab));
    assert_eq!(line.text(), "ello ");
    line.apply(&key(Key::Down));
    assert_eq!(line.cursor, 5);
    line.apply(&key(Key::Up));
    assert_eq!(line.cursor, 0);
    assert_eq!(line.apply(&key(Key::Enter)), Edited::Done);
    assert_eq!(line.apply(&key(Key::Esc)), Edited::Cancelled);
    assert_eq!(line.apply(&control('c')), Edited::Cancelled);
}

#[test]
fn secrets_are_shown_as_dots() {
    let line = LineEditor::new("key");
    let (prompt, shown, column) = draw_input("API key", &line, true);
    assert_eq!(prompt, "  API key: ");
    assert_eq!(shown, "\u{2022}\u{2022}\u{2022}");
    assert_eq!(column, 14);
    assert_eq!(draw_input("API key", &line, false).1, "key");
    let long = LineEditor::new(&"x".repeat(70_000));
    assert_eq!(draw_input("A", &long, false).2, u16::MAX);
}

#[test]
fn choices_are_made_by_keys() {
    assert_eq!(choose_key(false, Key::Enter, false), Choice::Made(false));
    assert_eq!(choose_key(false, Key::Char('Y'), false), Choice::Made(true));
    assert_eq!(choose_key(true, Key::Char('n'), false), Choice::Made(false));
    assert_eq!(choose_key(true, Key::Tab, false), Choice::Open(false));
    assert_eq!(choose_key(false, Key::Home, false), Choice::Open(true));
    assert_eq!(choose_key(false, Key::Char('c'), true), Choice::Cancelled);
    assert_eq!(choose_key(true, Key::Char('c'), false), Choice::Open(true));
    assert_eq!(finish_key(Key::Enter, false), Edited::Done);
    assert_eq!(finish_key(Key::Char('c'), true), Edited::Cancelled);
    assert_eq!(finish_key(Key::Tab, false), Edited::Open);
}

#[test]
fn names_of_providers_differ() {
    let taken = vec!["one".to_string()];
    assert_eq!(check_provider_name("two", &taken), Ok(()));
    assert_eq!(
        check_provider_name("  ", &taken).unwrap_err(),
        "Provider name cannot be empty."
    );
    assert_eq!(
        check_provider_name("one", &taken).unwrap_err(),
        "That provider name is already in use."
    );
}

#[test]
fn the_first_model_found_is_used() {
    let ids = vec![
        "whisper-1".to_string(),
        "zeta".to_string(),
        "gpt-5.5".to_string(),
    ];
    let models = discovered_models(ids, "OpenAI", true).unwrap();
    assert_eq!(models.len(), 2);
    assert_eq!(models[0].id, "gpt-5.5");
    assert_eq!(models[1].provider, "OpenAI");
    let config = configured(vec![ProviderConfig::default()], models);
    assert_eq!(config.model, "gpt-5.5");
    assert_eq!(config.reasoning_effort, Some(ReasoningEffort::Medium));
    assert_eq!(config.base_url, "");
    assert_eq!(config.providers.len(), 1);
    assert_eq!(
        discovered_models(vec!["tts-1".into()], "OpenAI", true).unwrap_err(),
        "the API returned no models usable with Chat Completions"
    );
}
