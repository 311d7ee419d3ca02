use rope::tool::headless::{
    browser_candidates, browser_executable, browser_names, check_startup, keep_complaint, parse_reply, request_line,
    runtime_parts, startup_error, validate_runtime, BrowserBlock, BrowserLink, BrowserPage, FirstLine, Waiters, standard_browsers, Platform,
};
use rope::tool::web_browser::{check_address, extract_page, format_block, page_output};
use rope::tool::web_search::{
    check_search, load_failed, nothing_found, parse_bing, parse_duckduckgo, result_url,
    search_failed, search_output, search_page, Provider, Search, SearchResult, SearchStep,
};
use rope::web_url::is_web_url;

fn block(tag: &str, text: &str) -> BrowserBlock {
    BrowserBlock {
        tag: tag.into(),
        text: text.into(),
    }
}

fn link(text: &str, url: &str) -> BrowserLink {
    BrowserLink {
        text: text.into(),
        url: url.into(),
    }
}

fn page() -> BrowserPage {
    BrowserPage {
        title: "Example page".into(),
        url: "https://example.com/page".into(),
        html: String::new(),
        visible_text: "Fallback visible text".into(),
        blocks: vec![
            block("h1", "Guide"),
            block("p", "Useful content."),
            block("li", "First item"),
        ],
        links: vec![link("Read docs", "https://example.com/docs#start")],
    }
}

#[test]
fn formats_browser_visible_blocks_and_links() {
    let page = extract_page(&page());

    assert_eq!(page.content, "# Guide\n\nUseful content.\n\n- First item");
    assert_eq!(page.links[0].url, "https://example.com/docs");
}

#[test]
fn falls_back_to_browser_visible_text() {
    let mut page = page();
    page.blocks.clear();
    assert_eq!(extract_page(&page).content, "Fallback visible text");
}

#[test]
fn blocks_are_marked() {
    for (tag, expected) in [
        ("h1", "# t"),
        ("h2", "## t"),
        ("h3", "### t"),
        ("h4", "#### t"),
        ("h6", "#### t"),
        ("li", "- t"),
        ("blockquote", "> t"),
        ("pre", "```\nt\n```"),
        ("tr", "t"),
        ("p", "t"),
    ] {
        assert_eq!(format_block(&block(tag, " t ")).as_deref(), Some(expected));
    }
    assert_eq!(format_block(&block("p", "  ")), None);
}

#[test]
fn links_are_told_once_and_fifty_at_most() {
    let mut many = page();
    many.links = (0..80).map(|n| link("l", &format!("https://example.com/{}", n / 2))).collect();
    assert_eq!(extract_page(&many).links.len(), 40);
    many.links = (0..80).map(|n| link("l", &format!("https://example.com/{n}"))).collect();
    many.links.insert(0, link("script", "javascript:void(0)"));
    assert_eq!(extract_page(&many).links.len(), 50);
    assert_eq!(extract_page(&many).links[0].url, "https://example.com/0");
}

#[test]
fn pages_are_told_as_json() {
    let value: serde_json::Value = serde_json::from_str(&page_output(&page())).unwrap();
    assert_eq!(value["url"], "https://example.com/page");
    assert_eq!(value["title"], "Example page");
    assert_eq!(value["links"][0]["text"], "Read docs");
    assert_eq!(value["content"], "# Guide\n\nUseful content.\n\n- First item");
}

#[test]
fn only_web_addresses_are_opened() {
    assert_eq!(check_address(" https://example.com ").unwrap(), "https://example.com/");
    assert_eq!(
        check_address("file:///etc/hosts").unwrap_err(),
        "web_browser only supports HTTP(S) URLs"
    );
    assert!(check_address("nothing").is_err());
    assert!(is_web_url("http://example.com"));
    assert!(!is_web_url("ftp://example.com"));
    assert!(!is_web_url("nothing"));
}

#[test]
fn parses_duckduckgo_results() {
    let html = r#"
            <article data-testid="result">
              <a data-testid="result-title-a" href="https://www.rust-lang.org/">Rust Language</a>
              <div></div><div></div><div>Fast, safe, and productive.</div>
            </article>
        "#;
    let results = parse_duckduckgo(html, 5);
    assert_eq!(results.len(), 1);
    assert_eq!(results[0].title, "Rust Language");
    assert_eq!(results[0].url, "https://www.rust-lang.org/");
    assert_eq!(results[0].snippet, "Fast, safe, and productive.");
}

#[test]
fn parses_the_plain_duckduckgo_page() {
    let html = r#"
            <div class="result"><a class="result__a" href="https://a.example/">A</a>
              <a class="result__snippet">first   one</a></div>
            <div class="result"><a class="result__a" href="https://a.example/">again</a></div>
            <div class="result"><a class="result__a" href="https://b.example/">B</a></div>
        "#;
    let results = parse_duckduckgo(html, 5);
    assert_eq!(results.len(), 2);
    assert_eq!(results[0].snippet, "first one");
    assert_eq!(results[1].title, "B");
    assert_eq!(results[1].snippet, "");
}

#[test]
fn parses_bing_redirects_and_limits_results() {
    let html = r#"
            <li class="b_algo"><h2><a href="https://www.bing.com/ck/a?u=a1aHR0cHM6Ly9ydXN0LWxhbmcub3JnLw">Rust</a></h2><div class="b_caption"><p>Rust language</p></div></li>
            <li class="b_algo"><h2><a href="https://example.com/other">Other</a></h2></li>
        "#;
    let results = parse_bing(html, 1);
    assert_eq!(results.len(), 1);
    assert_eq!(results[0].url, "https://rust-lang.org/");
    assert_eq!(results[0].snippet, "Rust language");
}

#[test]
fn rejects_non_web_result_urls() {
    assert_eq!(result_url("javascript:alert(1)"), None);
    assert_eq!(
        result_url("https://example.com"),
        Some("https://example.com".into())
    );
}

#[test]
fn unwraps_duckduckgo_redirects() {
    assert_eq!(
        result_url("https://duckduckgo.com/l/?uddg=https%3A%2F%2Fexample.com%2Fdocs"),
        Some("https://example.com/docs".into())
    );
}

#[test]
fn searches_are_checked() {
    assert_eq!(check_search(" rust ", None), Ok(("rust".into(), 5)));
    assert_eq!(check_search("rust", Some(10)), Ok(("rust".into(), 10)));
    assert_eq!(check_search("  ", None).unwrap_err(), "search query is empty");
    for limit in [0, 11] {
        assert_eq!(
            check_search("rust", Some(limit)).unwrap_err(),
            "max_results must be between 1 and 10"
        );
    }
}

#[test]
fn searches_are_addresses() {
    assert_eq!(
        Provider::DuckDuckGo.url("a b").as_deref(),
        Some("https://duckduckgo.com/?q=a+b&ia=web")
    );
    assert_eq!(
        Provider::Bing.url("a&b").as_deref(),
        Some("https://www.bing.com/search?q=a%26b")
    );
}

#[test]
fn results_are_told_as_json() {
    let results = vec![SearchResult {
        title: "Rust".into(),
        url: "https://rust-lang.org/".into(),
        snippet: "language".into(),
    }];
    let value: serde_json::Value =
        serde_json::from_str(&search_output("rust", Provider::Bing, &results)).unwrap();
    assert_eq!(value["provider"], "bing");
    assert_eq!(value["query"], "rust");
    assert_eq!(value["results"][0]["snippet"], "language");
    assert_eq!(nothing_found(Provider::DuckDuckGo), "duckduckgo returned no organic results");
    assert_eq!(
        search_failed(&vec!["a".into(), "b".into()]),
        "web search failed: a; b"
    );
}

#[test]
fn a_page_gives_results_or_an_error() {
    let html = r#"<li class="b_algo"><h2><a href="https://example.com/x">X</a></h2></li>"#;
    let output = search_page("x", Provider::Bing, html, 3).unwrap();
    let value: serde_json::Value = serde_json::from_str(&output).unwrap();
    assert_eq!(value["results"][0]["url"], "https://example.com/x");
    assert_eq!(
        search_page("x", Provider::DuckDuckGo, html, 3).unwrap_err(),
        "duckduckgo returned no organic results"
    );
    assert_eq!(Provider::Bing.parse(html, 0).len(), 0);
    assert_eq!(
        load_failed(Provider::Bing, "browser timed out"),
        "bing: bing search: browser timed out"
    );
}

#[test]
fn the_helper_has_to_say_that_it_is_ready() {
    assert_eq!(check_startup(FirstLine::Line(r#"{"ready":true}"#.into()), ""), Ok(()));
    assert_eq!(
        check_startup(FirstLine::Line(r#"{"ready":false}"#.into()), " no browser \n").unwrap_err(),
        "Patchright browser failed to start: no browser"
    );
    assert_eq!(
        check_startup(FirstLine::Line("hello".into()), "").unwrap_err(),
        "invalid Patchright startup reply: expected value at line 1 column 1"
    );
    assert_eq!(
        check_startup(FirstLine::Closed, "").unwrap_err(),
        "Patchright browser helper exited during startup: no diagnostics"
    );
    assert_eq!(
        check_startup(FirstLine::TimedOut, "slow").unwrap_err(),
        "Patchright browser startup timed out: slow"
    );
    assert_eq!(
        check_startup(FirstLine::Failed("broken pipe".into()), "").unwrap_err(),
        "read Patchright startup reply: broken pipe"
    );
    let mut kept = String::new();
    keep_complaint(&mut kept, "one");
    keep_complaint(&mut kept, "two");
    assert_eq!(startup_error(&kept), "one\ntwo");
    for _ in 0..20_000 {
        keep_complaint(&mut kept, "three");
    }
    let full = kept.clone();
    keep_complaint(&mut kept, "four");
    assert_eq!(kept, full);
}

#[test]
fn replies_go_to_those_who_wait() {
    let line = request_line(7, "load", Some("https://example.com/"));
    let value: serde_json::Value = serde_json::from_str(&line).unwrap();
    assert_eq!(value["id"], 7);
    assert_eq!(value["method"], "load");
    assert_eq!(value["url"], "https://example.com/");
    let (id, result) = parse_reply(r#"{"id":7,"result":{"a":1}}"#).unwrap();
    assert_eq!(id, 7);
    assert!(result.is_ok());
    let (_, result) = parse_reply(r#"{"id":8,"error":"bad"}"#).unwrap();
    assert_eq!(result.unwrap_err(), "bad");
    assert!(parse_reply("{}").is_none());
    assert!(parse_reply("nothing").is_none());
    let mut waiters = Waiters::new();
    waiters.insert(7);
    assert!(waiters.remove(7));
    assert!(!waiters.remove(7));
}

#[test]
fn the_browser_that_was_chosen_is_used() {
    let candidates = ["a", "b"].map(String::from).to_vec();
    assert_eq!(browser_executable(None, &candidates, &vec![false, true]).as_deref(), Some("b"));
    assert_eq!(browser_executable(None, &candidates, &vec![false, false]), None);
    let chosen = |there: bool| Some(("/my/chrome".to_string(), there));
    assert_eq!(
        browser_executable(chosen(true), &candidates, &vec![true, true]).as_deref(),
        Some("/my/chrome")
    );
    assert_eq!(browser_executable(chosen(false), &candidates, &vec![true, true]), None);
    assert_eq!(browser_names()[0], "google-chrome");
    assert_eq!(runtime_parts("node")[1], "sidecar.cjs");
    assert_eq!(validate_runtime(&vec![("node".into(), true)]), Ok(()));
    assert!(validate_runtime(&vec![("node".into(), true), ("x".into(), false)]).is_err());
}

#[test]
fn bing_is_asked_where_duckduckgo_gives_nothing() {
    let page = r#"<li class="b_algo"><h2><a href="https://a.example/">A</a></h2></li>"#;
    let mut search = Search::start(" rust ", None).unwrap();
    let SearchStep::Load(Provider::DuckDuckGo, address) = search.next() else {
        panic!("another site is first");
    };
    assert_eq!(address, "https://duckduckgo.com/?q=rust&ia=web");
    assert_eq!(search.took(Err("timed out")), None);
    assert_eq!(
        search.next(),
        SearchStep::Load(Provider::Bing, "https://www.bing.com/search?q=rust".into())
    );
    let output = search.took(Ok(page)).unwrap();
    assert!(output.contains(r#""provider": "bing""#));
    assert!(output.contains("https://a.example/"));
}

#[test]
fn a_search_fails_where_no_site_helps() {
    let mut search = Search::start("rust", Some(3)).unwrap();
    assert_eq!(search.took(Ok("<html></html>")), None);
    assert_eq!(search.took(Err("timed out")), None);
    assert_eq!(
        search.next(),
        SearchStep::Failed(
            "web search failed: duckduckgo returned no organic results; bing: bing search: timed out"
                .into()
        )
    );
    assert_eq!(search.took(Err("again")), None);
    assert_eq!(Search::start(" ", None).unwrap_err(), "search query is empty");
    assert!(Search::start("rust", Some(0)).is_err());
    let page = r#"<div class="result"><a class="result__a" href="https://b.example/">B</a></div>"#;
    let mut search = Search::start("rust", Some(1)).unwrap();
    assert!(search.took(Ok(page)).unwrap().contains(r#""provider": "duckduckgo""#));
}

#[test]
fn browsers_are_looked_for_in_order() {
    let directories = vec!["/a".to_string(), "/b/".to_string()];
    let standard = standard_browsers(Platform::Mac, &vec![]);
    let candidates = browser_candidates(&directories, &standard);
    assert_eq!(candidates.len(), 15);
    assert_eq!(candidates[0], "/a/google-chrome");
    assert_eq!(candidates[5], "/a/microsoft-edge");
    assert_eq!(candidates[6], "/b/google-chrome");
    assert_eq!(candidates[12..], standard[..]);
    let windows = standard_browsers(Platform::Windows, &vec!["C:/Programs".to_string()]);
    assert_eq!(windows[1], "C:/Programs/Microsoft/Edge/Application/msedge.exe");
    assert!(standard_browsers(Platform::Other, &directories).is_empty());
}
