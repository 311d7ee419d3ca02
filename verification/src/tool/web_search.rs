//! Searches on the web: addresses, results and what is told of them.
use crate::encoding::{base64_url_bytes, decode_base64_url, utf8_text};
use crate::json;
use crate::json::{written_pretty, Json, JsonView};
use crate::text;
use crate::text::{has_prefix, has_suffix, join, trim, words};
use crate::text_set::TextSet;
use crate::web_url::{
    extend_pairs, find_pair, is_page_of, is_web_address, is_web_url, pair_value, parse_url, read_url,
    with_pairs, UrlView,
};
use vstd::prelude::*;
use vstd::string::*;
use vstd::utf8::*;

verus! {

/// A page of results.
#[derive(Clone, Copy, Debug, PartialEq, Eq, Structural)]
pub enum Provider {
    DuckDuckGo,
    Bing,
}

pub open spec fn provider_name(provider: Provider) -> Seq<char> {
    match provider {
        Provider::DuckDuckGo => "duckduckgo"@,
        Provider::Bing => "bing"@,
    }
}

/// The address of the search page of a provider.
pub open spec fn search_base(provider: Provider) -> Seq<char> {
    match provider {
        Provider::DuckDuckGo => "https://duckduckgo.com/"@,
        Provider::Bing => "https://www.bing.com/search"@,
    }
}

/// The query of the address of a search.
pub open spec fn search_pairs(provider: Provider, query: Seq<char>) -> Seq<(Seq<char>, Seq<char>)> {
    match provider {
        Provider::DuckDuckGo => seq![("q"@, query), ("ia"@, "web"@)],
        Provider::Bing => seq![("q"@, query)],
    }
}

proof fn search_base_is_page(provider: Provider)
    ensures
        exists|host: Seq<char>, page: Seq<char>| is_page_of(search_base(provider), host, page),
{
    reveal_strlit("https://");
    reveal_strlit("/");
    match provider {
        Provider::DuckDuckGo => {
            reveal_strlit("https://duckduckgo.com/");
            reveal_strlit("duckduckgo.com");
            let base = search_base(provider);
            assert(base =~= "https://"@ + "duckduckgo.com"@ + "/"@ + Seq::<char>::empty());
            assert(is_page_of(base, "duckduckgo.com"@, Seq::<char>::empty()));
        },
        Provider::Bing => {
            reveal_strlit("https://www.bing.com/search");
            reveal_strlit("www.bing.com");
            reveal_strlit("search");
            let base = search_base(provider);
            assert(base =~= "https://"@ + "www.bing.com"@ + "/"@ + "search"@);
            assert(is_page_of(base, "www.bing.com"@, "search"@));
        },
    }
}

/// The address of a search.
pub open spec fn search_address(provider: Provider, query: Seq<char>) -> Option<Seq<char>> {
    with_pairs(search_base(provider), search_pairs(provider, query))
}

impl Provider {
    pub fn name(&self) -> (name: &'static str)
        ensures
            name@ == provider_name(*self),
    {
        match self {
            Provider::DuckDuckGo => "duckduckgo",
            Provider::Bing => "bing",
        }
    }

    /// The address of a search.
    pub fn url(&self, query: &str) -> (result: Option<String>)
        ensures
            result.deep_view() == search_address(*self, query@),
            result is Some,
    {
        proof {
            search_base_is_page(*self);
            reveal_strlit("https://duckduckgo.com/");
            reveal_strlit("https://www.bing.com/search");
        }
        let mut pairs: Vec<(String, String)> = vec![("q".to_owned(), query.to_owned())];
        let base = match self {
            Provider::DuckDuckGo => {
                pairs.push(("ia".to_owned(), "web".to_owned()));
                "https://duckduckgo.com/"
            },
            Provider::Bing => "https://www.bing.com/search",
        };
        assert(pairs.deep_view() =~= search_pairs(*self, query@));
        extend_pairs(base, &pairs)
    }
}

// ---------------------------------------------------------------------------
// Elements of a page
// ---------------------------------------------------------------------------

/// An element: the texts in it, and the address that it links to.
#[derive(Debug, PartialEq)]
pub struct Element {
    pub texts: Vec<String>,
    pub href: Option<String>,
}

pub struct ElementView {
    pub texts: Seq<Seq<char>>,
    pub href: Option<Seq<char>>,
}

impl DeepView for Element {
    type V = ElementView;

    open spec fn deep_view(&self) -> ElementView {
        ElementView { texts: self.texts.deep_view(), href: self.href.deep_view() }
    }
}

/// For each element of a page that the selector `items` finds, the first element in
/// it that `inner` finds, as `scraper` reads them; `None` where a selector is none.
pub uninterp spec fn selected(html: Seq<char>, items: Seq<char>, inner: Seq<char>) -> Option<
    Seq<Option<ElementView>>,
>;

/// `scraper::Html::parse_document`, and `select` with two selectors, one inside the
/// other: of each element the texts in it and its attribute `href`.
#[verifier::external_body]
fn select(html: &str, items: &str, inner: &str) -> (result: Option<Vec<Option<Element>>>)
    ensures
        result.deep_view() == selected(html@, items@, inner@),
{
    let document = scraper::Html::parse_document(html);
    let outer = scraper::Selector::parse(items).ok()?;
    let inner = scraper::Selector::parse(inner).ok()?;
    let first = |item: scraper::ElementRef| item.select(&inner).next().map(|e| Element {
        texts: e.text().map(str::to_owned).collect(),
        href: e.value().attr("href").map(str::to_owned),
    });
    Some(document.select(&outer).map(first).collect())
}

/// The text of an element, its words with a space between.
pub open spec fn element_text(element: ElementView) -> Seq<char> {
    join(words(join(element.texts, " "@)), " "@)
}

/// The text of an element.
pub fn text_of(element: &Element) -> (result: String)
    ensures
        result@ == element_text(element.deep_view()),
{
    let whole = text::join_all(&element.texts, " ");
    text::join_all(&text::split_words(whole.as_str()), " ")
}

// ---------------------------------------------------------------------------
// Addresses of results
// ---------------------------------------------------------------------------

/// The address, where it is one of the web.
pub open spec fn web_only(address: Seq<char>) -> Option<Seq<char>> {
    if is_web_address(address) {
        Some(address)
    } else {
        None
    }
}

/// The address that a redirection of Bing hides, which is Base64 behind two
/// characters.
pub open spec fn hidden_address(encoded: Seq<char>) -> Option<Seq<char>> {
    let bare = if has_prefix(encoded, "a1"@) {
        encoded.skip(2)
    } else {
        encoded
    };
    match base64_url_bytes(bare) {
        Some(bytes) => if valid_utf8(bytes) {
            web_only(decode_utf8(bytes))
        } else {
            None
        },
        None => None,
    }
}

/// Whether an address is on a site of DuckDuckGo and names where it leads to.
pub open spec fn duck_target(url: UrlView) -> Option<Seq<char>> {
    match url.host {
        Some(host) if has_suffix(host, "duckduckgo.com"@) => pair_value(url.pairs, "uddg"@),
        _ => None,
    }
}

/// The address that a result leads to, behind redirections of the search sites.
pub open spec fn target(href: Seq<char>) -> Option<Seq<char>> {
    match read_url(href) {
        None => None,
        Some(url) => match duck_target(url) {
            Some(destination) => web_only(destination),
            None => if url.host == Some("www.bing.com"@) {
                match pair_value(url.pairs, "u"@) {
                    Some(encoded) => hidden_address(encoded),
                    None => None,
                }
            } else {
                web_only(href)
            },
        },
    }
}

fn only_web(address: String) -> (result: Option<String>)
    ensures
        result.deep_view() == web_only(address@),
{
    if is_web_url(address.as_str()) {
        Some(address)
    } else {
        None
    }
}

fn reveal_address(encoded: &str) -> (result: Option<String>)
    ensures
        result.deep_view() == hidden_address(encoded@),
{
    proof {
        reveal_strlit("a1");
    }
    let bare = match text::strip_prefix(encoded, "a1") {
        Some(rest) => rest,
        None => encoded.to_owned(),
    };
    match decode_base64_url(bare.as_str()) {
        Some(bytes) => match utf8_text(bytes.as_slice()) {
            Some(address) => {
                proof {
                    encode_utf8_decode_utf8(address@);
                }
                only_web(address)
            },
            None => None,
        },
        None => None,
    }
}

/// The address that a result leads to.
pub fn result_url(href: &str) -> (result: Option<String>)
    ensures
        result.deep_view() == target(href@),
{
    let url = match parse_url(href) {
        Ok(url) => url,
        Err(_) => {
            return None;
        },
    };
    match &url.host {
        Some(host) => {
            if text::ends_with(host.as_str(), "duckduckgo.com") {
                match find_pair(&url.pairs, "uddg") {
                    Some(destination) => {
                        return only_web(destination.clone());
                    },
                    None => {},
                }
            }
            if text::same(host.as_str(), "www.bing.com") {
                return match find_pair(&url.pairs, "u") {
                    Some(encoded) => reveal_address(encoded.as_str()),
                    None => None,
                };
            }
        },
        None => {},
    }
    only_web(href.to_owned())
}

// ---------------------------------------------------------------------------
// Results
// ---------------------------------------------------------------------------

#[derive(Debug, PartialEq)]
pub struct SearchResult {
    pub title: String,
    pub url: String,
    pub snippet: String,
}

pub struct ResultView {
    pub title: Seq<char>,
    pub url: Seq<char>,
    pub snippet: Seq<char>,
}

impl DeepView for SearchResult {
    type V = ResultView;

    open spec fn deep_view(&self) -> ResultView {
        ResultView { title: self.title@, url: self.url@, snippet: self.snippet@ }
    }
}

/// The title and the address of a result; `None` where it has none.
pub open spec fn entry_of(link: Option<ElementView>) -> Option<(Seq<char>, Seq<char>)> {
    match link {
        Some(link) => match link.href {
            Some(href) => match target(href) {
                Some(url) => if element_text(link).len() > 0 {
                    Some((element_text(link), url))
                } else {
                    None
                },
                None => None,
            },
            None => None,
        },
        None => None,
    }
}

/// The text of an element, or none.
pub open spec fn text_or_none(element: Option<ElementView>) -> Seq<char> {
    match element {
        Some(element) => element_text(element),
        None => Seq::empty(),
    }
}

/// The element at `i`, if there is one.
pub open spec fn at(elements: Seq<Option<ElementView>>, i: int) -> Option<ElementView> {
    if 0 <= i < elements.len() {
        elements[i]
    } else {
        None
    }
}

/// The results from the item `i` on: those with a title and an address that was not
/// seen before, at most `left`.
pub open spec fn results_from(
    links: Seq<Option<ElementView>>,
    snippets: Seq<Seq<char>>,
    i: int,
    seen: Set<Seq<char>>,
    left: nat,
) -> Seq<ResultView>
    decreases links.len() - i,
{
    if i < 0 || i >= links.len() || left == 0 {
        Seq::empty()
    } else {
        match entry_of(links[i]) {
            Some((title, url)) if !seen.contains(url) => seq![
                ResultView {
                    title,
                    url,
                    snippet: if i < snippets.len() {
                        snippets[i]
                    } else {
                        Seq::empty()
                    },
                },
            ] + results_from(links, snippets, i + 1, seen.insert(url), (left - 1) as nat),
            _ => results_from(links, snippets, i + 1, seen, left),
        }
    }
}

fn entry(link: &Option<Element>) -> (result: Option<(String, String)>)
    ensures
        result.deep_view() == entry_of(link.deep_view()),
{
    match link {
        Some(link) => match &link.href {
            Some(href) => match result_url(href.as_str()) {
                Some(url) => {
                    let title = text_of(link);
                    if title.as_str().is_empty() {
                        None
                    } else {
                        Some((title, url))
                    }
                },
                None => None,
            },
            None => None,
        },
        None => None,
    }
}

/// The results among `links`, each with the snippet at its place.
pub fn collect_results(links: &Vec<Option<Element>>, snippets: &Vec<String>, limit: usize) -> (results: Vec<
    SearchResult,
>)
    ensures
        results.deep_view() == results_from(
            links.deep_view(),
            snippets.deep_view(),
            0,
            Set::empty(),
            limit as nat,
        ),
{
    let ghost all = links.deep_view();
    let ghost said = snippets.deep_view();
    let ghost goal = results_from(all, said, 0, Set::empty(), limit as nat);
    let mut seen = TextSet::new();
    let mut results: Vec<SearchResult> = Vec::new();
    let mut i: usize = 0;
    assert(results.deep_view() + goal =~= goal);
    while i < links.len() && results.len() < limit
        invariant
            all == links.deep_view(),
            said == snippets.deep_view(),
            i <= links@.len(),
            results@.len() <= limit,
            results.deep_view() + results_from(
                all,
                said,
                i as int,
                seen@,
                (limit - results@.len()) as nat,
            ) == goal,
        decreases links@.len() - i,
    {
        let ghost before = results.deep_view();
        assert(all[i as int] == links@[i as int].deep_view());
        match entry(&links[i]) {
            Some(found) => {
                let (title, url) = found;
                if !seen.contains(url.as_str()) {
                    let snippet = if i < snippets.len() {
                        snippets[i].clone()
                    } else {
                        String::new()
                    };
                    seen.insert(url.clone());
                    let result = SearchResult { title, url, snippet };
                    let ghost view = result.deep_view();
                    results.push(result);
                    proof {
                        assert(results.deep_view() =~= before.push(view));
                        let rest = results_from(
                            all,
                            said,
                            i + 1,
                            seen@,
                            (limit - results@.len()) as nat,
                        );
                        assert(before + (seq![view] + rest) =~= before.push(view) + rest);
                    }
                }
            },
            None => {},
        }
        i += 1;
    }
    assert(results.deep_view() + Seq::<ResultView>::empty() =~= results.deep_view());
    results
}

/// The snippets of the items: of the first element there is, else of the second.
pub open spec fn snippets_of(
    first: Seq<Option<ElementView>>,
    second: Seq<Option<ElementView>>,
) -> Seq<Seq<char>> {
    Seq::new(
        first.len(),
        |i: int|
            match first[i] {
                Some(element) => element_text(element),
                None => text_or_none(at(second, i)),
            },
    )
}

/// The snippets of the items: of the first element there is, else of the second.
pub fn choose_snippets(first: &Vec<Option<Element>>, second: &Vec<Option<Element>>) -> (result: Vec<
    String,
>)
    ensures
        result.deep_view() == snippets_of(first.deep_view(), second.deep_view()),
{
    let ghost a = first.deep_view();
    let ghost b = second.deep_view();
    let ghost goal = snippets_of(a, b);
    let mut result: Vec<String> = Vec::new();
    let mut i: usize = 0;
    while i < first.len()
        invariant
            a == first.deep_view(),
            b == second.deep_view(),
            goal == snippets_of(a, b),
            i <= first@.len(),
            result@.len() == i,
            forall|k: int| 0 <= k < i ==> (#[trigger] result@[k])@ == goal[k],
        decreases first@.len() - i,
    {
        assert(a[i as int] == first@[i as int].deep_view());
        let snippet = match &first[i] {
            Some(element) => text_of(element),
            None => if i < second.len() {
                assert(b[i as int] == second@[i as int].deep_view());
                match &second[i] {
                    Some(element) => text_of(element),
                    None => String::new(),
                }
            } else {
                String::new()
            },
        };
        result.push(snippet);
        i += 1;
    }
    assert(result.deep_view() =~= goal);
    result
}

/// What is found in a page of results: the links of the items, and two places where
/// a snippet may stand.
pub open spec fn page_parts(provider: Provider, html: Seq<char>) -> (
    Option<Seq<Option<ElementView>>>,
    Option<Seq<Option<ElementView>>>,
    Option<Seq<Option<ElementView>>>,
) {
    match provider {
        Provider::DuckDuckGo => {
            let items = "article[data-testid='result'], .result"@;
            (
                selected(html, items, "a[data-testid='result-title-a'], a.result__a"@),
                selected(html, items, ".result__snippet"@),
                selected(html, items, "article[data-testid='result'] > div:nth-child(4)"@),
            )
        },
        Provider::Bing => (
            selected(html, "li.b_algo"@, "h2 a"@),
            selected(html, "li.b_algo"@, ".b_caption p"@),
            Some(Seq::empty()),
        ),
    }
}

/// The results of a page.
pub open spec fn page_results(provider: Provider, html: Seq<char>, limit: usize) -> Seq<
    ResultView,
> {
    match page_parts(provider, html) {
        (Some(links), Some(first), Some(second)) => results_from(
            links,
            snippets_of(first, second),
            0,
            Set::empty(),
            limit as nat,
        ),
        _ => Seq::empty(),
    }
}

fn no_results() -> (results: Vec<SearchResult>)
    ensures
        results.deep_view() == Seq::<ResultView>::empty(),
{
    let results: Vec<SearchResult> = Vec::new();
    assert(results.deep_view() =~= Seq::empty());
    results
}

/// The results of a page of DuckDuckGo.
pub fn parse_duckduckgo(html: &str, limit: usize) -> (results: Vec<SearchResult>)
    ensures
        results.deep_view() == page_results(Provider::DuckDuckGo, html@, limit),
{
    let items = "article[data-testid='result'], .result";
    let links = select(html, items, "a[data-testid='result-title-a'], a.result__a");
    let lite = select(html, items, ".result__snippet");
    let modern = select(html, items, "article[data-testid='result'] > div:nth-child(4)");
    match (links, lite, modern) {
        (Some(links), Some(lite), Some(modern)) => collect_results(
            &links,
            &choose_snippets(&lite, &modern),
            limit,
        ),
        _ => no_results(),
    }
}

/// The results of a page of Bing.
pub fn parse_bing(html: &str, limit: usize) -> (results: Vec<SearchResult>)
    ensures
        results.deep_view() == page_results(Provider::Bing, html@, limit),
{
    let links = select(html, "li.b_algo", "h2 a");
    let captions = select(html, "li.b_algo", ".b_caption p");
    let none: Vec<Option<Element>> = Vec::new();
    assert(none.deep_view() =~= Seq::empty());
    match (links, captions) {
        (Some(links), Some(captions)) => collect_results(
            &links,
            &choose_snippets(&captions, &none),
            limit,
        ),
        _ => no_results(),
    }
}

/// No more results are given than were asked for, no address twice, and each has a
/// title and an address of the web.
pub proof fn results_law(
    links: Seq<Option<ElementView>>,
    snippets: Seq<Seq<char>>,
    i: int,
    seen: Set<Seq<char>>,
    left: nat,
)
    requires
        0 <= i,
    ensures
        ({
            let results = results_from(links, snippets, i, seen, left);
            &&& results.len() <= left
            &&& forall|k: int| 0 <= k < results.len() ==> (#[trigger] results[k]).title.len() > 0
            &&& forall|k: int|
                0 <= k < results.len() ==> is_web_address((#[trigger] results[k]).url)
            &&& forall|k: int| 0 <= k < results.len() ==> !seen.contains((#[trigger] results[k]).url)
            &&& forall|a: int, b: int|
                0 <= a < b < results.len() ==> (#[trigger] results[a]).url != (
                #[trigger] results[b]).url
        }),
    decreases links.len() - i,
{
    if i < links.len() && left > 0 {
        match entry_of(links[i]) {
            Some((title, url)) if !seen.contains(url) => {
                results_law(links, snippets, i + 1, seen.insert(url), (left - 1) as nat);
                let rest = results_from(links, snippets, i + 1, seen.insert(url), (left - 1) as nat);
                let results = results_from(links, snippets, i, seen, left);
                assert forall|k: int| 1 <= k < results.len() implies #[trigger] results[k] == rest[k
                    - 1] by {}
            },
            _ => {
                results_law(links, snippets, i + 1, seen, left);
            },
        }
    }
}

// ---------------------------------------------------------------------------
// The tool
// ---------------------------------------------------------------------------

/// What is searched for, or what is wrong with the request. Five results are wanted
/// where nothing else is said.
pub fn check_search(query: &str, max_results: Option<usize>) -> (result: Result<
    (String, usize),
    String,
>)
    ensures
        ({
            let limit = match max_results {
                Some(n) => n,
                None => 5,
            };
            match result {
                Ok(search) => {
                    &&& trim(query@).len() > 0
                    &&& 1 <= limit <= 10
                    &&& search.0@ == trim(query@)
                    &&& search.1 == limit
                },
                Err(error) => if trim(query@).len() == 0 {
                    error@ == "search query is empty"@
                } else {
                    !(1 <= limit <= 10) && error@ == "max_results must be between 1 and 10"@
                },
            }
        }),
{
    let wanted = text::trimmed(query);
    let limit: usize = match max_results {
        Some(n) => n,
        None => 5,
    };
    if wanted.as_str().is_empty() {
        return Err("search query is empty".to_owned());
    }
    if limit < 1 || limit > 10 {
        return Err("max_results must be between 1 and 10".to_owned());
    }
    Ok((wanted, limit))
}

pub open spec fn result_json(result: ResultView) -> JsonView {
    JsonView::Object(
        seq![
            ("title"@, JsonView::Text(result.title)),
            ("url"@, JsonView::Text(result.url)),
            ("snippet"@, JsonView::Text(result.snippet)),
        ],
    )
}

/// What a search tells.
pub open spec fn output_json(query: Seq<char>, provider: Provider, results: Seq<ResultView>) -> JsonView {
    JsonView::Object(
        seq![
            ("query"@, JsonView::Text(query)),
            ("provider"@, JsonView::Text(provider_name(provider))),
            (
                "results"@,
                JsonView::Array(results.map_values(|r: ResultView| result_json(r))),
            ),
        ],
    )
}

/// What a search tells.
pub fn search_output(query: &str, provider: Provider, results: &Vec<SearchResult>) -> (output: String)
    ensures
        output@ == written_pretty(output_json(query@, provider, results.deep_view())),
{
    let mut items: Vec<Json> = Vec::new();
    let mut i: usize = 0;
    while i < results.len()
        invariant
            i <= results@.len(),
            items@.len() == i,
            forall|k: int|
                0 <= k < i ==> (#[trigger] items@[k]).deep_view() == result_json(
                    results@[k].deep_view(),
                ),
        decreases results@.len() - i,
    {
        let result = &results[i];
        let mut entries: Vec<(String, Json)> = Vec::new();
        entries.push(("title".to_owned(), Json::text(result.title.as_str())));
        entries.push(("url".to_owned(), Json::text(result.url.as_str())));
        entries.push(("snippet".to_owned(), Json::text(result.snippet.as_str())));
        proof {
            json::json_view_object(entries);
            assert(entries.deep_view() =~= result_json(result.deep_view())->Object_0);
        }
        items.push(Json::Object(entries));
        i += 1;
    }
    let ghost goal = results.deep_view().map_values(|r: ResultView| result_json(r));
    proof {
        json::json_view_array(items);
        assert(items.deep_view() =~= goal);
    }
    let list = Json::Array(items);
    let mut entries: Vec<(String, Json)> = Vec::new();
    entries.push(("query".to_owned(), Json::text(query)));
    entries.push(("provider".to_owned(), Json::text(provider.name())));
    entries.push(("results".to_owned(), list));
    proof {
        json::json_view_object(entries);
        assert(entries.deep_view() =~= output_json(
            query@,
            provider,
            results.deep_view(),
        )->Object_0);
    }
    json::write_pretty(&Json::Object(entries))
}

/// What is said of a site that gave nothing.
pub fn nothing_found(provider: Provider) -> (error: String)
    ensures
        error@ == provider_name(provider) + " returned no organic results"@,
{
    text::join_two(provider.name(), " returned no organic results")
}

impl Provider {
    /// The results of a page of the site.
    pub fn parse(&self, html: &str, limit: usize) -> (results: Vec<SearchResult>)
        ensures
            results.deep_view() == page_results(*self, html@, limit),
    {
        match self {
            Provider::DuckDuckGo => parse_duckduckgo(html, limit),
            Provider::Bing => parse_bing(html, limit),
        }
    }
}

/// What a page of a site gives: what the search tells, or what is said of a site that
/// gave nothing.
pub fn search_page(query: &str, provider: Provider, html: &str, limit: usize) -> (result: Result<
    String,
    String,
>)
    ensures
        ({
            let results = page_results(provider, html@, limit);
            match result {
                Ok(output) => {
                    &&& results.len() > 0
                    &&& output@ == written_pretty(output_json(query@, provider, results))
                },
                Err(error) => {
                    &&& results.len() == 0
                    &&& error@ == provider_name(provider) + " returned no organic results"@
                },
            }
        }),
{
    let results = provider.parse(html, limit);
    assert(results.deep_view().len() == results@.len());
    if results.len() == 0 {
        Err(nothing_found(provider))
    } else {
        Ok(search_output(query, provider, &results))
    }
}

/// What is said of a site whose page could not be had.
pub fn load_failed(provider: Provider, error: &str) -> (result: String)
    ensures
        result@ == provider_name(provider) + ": "@ + provider_name(provider) + " search: "@
            + error@,
{
    let mut result = text::join_three(provider.name(), ": ", provider.name());
    result.append(" search: ");
    result.append(error);
    result
}

/// What is said of a search that failed on all sites.
pub fn search_failed(errors: &Vec<String>) -> (error: String)
    ensures
        error@ == "web search failed: "@ + join(errors.deep_view(), "; "@),
{
    let all = text::join_all(errors, "; ");
    text::join_two("web search failed: ", all.as_str())
}

// ---------------------------------------------------------------------------
// A search over the sites
// ---------------------------------------------------------------------------

/// A search: what is looked for, how many results are wanted, and what was said of each
/// site that gave nothing.
#[derive(Debug, PartialEq)]
pub struct Search {
    query: String,
    limit: usize,
    errors: Vec<String>,
}

pub struct SearchView {
    pub query: Seq<char>,
    pub limit: usize,
    pub errors: Seq<Seq<char>>,
}

impl View for Search {
    type V = SearchView;

    closed spec fn view(&self) -> SearchView {
        SearchView { query: self.query@, limit: self.limit, errors: self.errors.deep_view() }
    }
}

/// What is to be done next in a search.
#[derive(Debug, PartialEq)]
pub enum SearchStep {
    /// The page of a site is to be loaded, from an address.
    Load(Provider, String),
    /// No site gave anything.
    Failed(String),
}

/// What a site gave: what the search tells, or what is said of the site. `loaded` is the
/// page, or why it could not be had.
pub open spec fn site_outcome(
    provider: Provider,
    query: Seq<char>,
    limit: usize,
    loaded: Result<Seq<char>, Seq<char>>,
) -> Result<Seq<char>, Seq<char>> {
    match loaded {
        Ok(html) => {
            let results = page_results(provider, html, limit);
            if results.len() > 0 {
                Ok(written_pretty(output_json(query, provider, results)))
            } else {
                Err(provider_name(provider) + " returned no organic results"@)
            }
        },
        Err(error) => Err(
            provider_name(provider) + ": "@ + provider_name(provider) + " search: "@ + error,
        ),
    }
}

impl SearchView {
    /// The site that is loaded next: DuckDuckGo first, then Bing, and no other.
    pub open spec fn site(self) -> Option<Provider> {
        if self.errors.len() == 0 {
            Some(Provider::DuckDuckGo)
        } else if self.errors.len() == 1 {
            Some(Provider::Bing)
        } else {
            None
        }
    }

    /// What the site that was loaded gave.
    pub open spec fn outcome(self, loaded: Result<Seq<char>, Seq<char>>) -> Result<
        Seq<char>,
        Seq<char>,
    >
        recommends
            self.site() is Some,
    {
        site_outcome(self.site()->0, self.query, self.limit, loaded)
    }

    /// The search after a site was loaded.
    pub open spec fn after(self, loaded: Result<Seq<char>, Seq<char>>) -> SearchView {
        if self.site() is None {
            self
        } else {
            match self.outcome(loaded) {
                Ok(_) => self,
                Err(error) => SearchView { errors: self.errors.push(error), ..self },
            }
        }
    }

    /// What is said of a search that no site answered.
    pub open spec fn failure(self) -> Seq<char> {
        "web search failed: "@ + join(self.errors, "; "@)
    }
}

/// The page that was loaded, or why it could not be.
pub open spec fn loaded_view(loaded: Result<&str, &str>) -> Result<Seq<char>, Seq<char>> {
    match loaded {
        Ok(html) => Ok(html@),
        Err(error) => Err(error@),
    }
}

impl Search {
    /// Begins a search, or says what is wrong with the request; then no page is loaded.
    pub fn start(query: &str, max_results: Option<usize>) -> (result: Result<Search, String>)
        ensures
            ({
                let limit = match max_results {
                    Some(n) => n,
                    None => 5,
                };
                match result {
                    Ok(search) => {
                        &&& trim(query@).len() > 0
                        &&& 1 <= limit <= 10
                        &&& search@ == (SearchView {
                            query: trim(query@),
                            limit,
                            errors: Seq::empty(),
                        })
                    },
                    Err(error) => if trim(query@).len() == 0 {
                        error@ == "search query is empty"@
                    } else {
                        !(1 <= limit <= 10) && error@ == "max_results must be between 1 and 10"@
                    },
                }
            }),
    {
        match check_search(query, max_results) {
            Ok((query, limit)) => {
                let errors: Vec<String> = Vec::new();
                assert(errors.deep_view() =~= Seq::empty());
                Ok(Search { query, limit, errors })
            },
            Err(error) => Err(error),
        }
    }

    /// What is to be done next.
    pub fn next(&self) -> (step: SearchStep)
        ensures
            match self@.site() {
                Some(provider) => step matches SearchStep::Load(site, address) && site == provider
                    && search_address(provider, self@.query) == Some(address@),
                None => step matches SearchStep::Failed(error) && error@ == self@.failure(),
            },
    {
        assert(self.errors.deep_view().len() == self.errors@.len());
        let provider = if self.errors.len() == 0 {
            Provider::DuckDuckGo
        } else if self.errors.len() == 1 {
            Provider::Bing
        } else {
            return SearchStep::Failed(search_failed(&self.errors));
        };
        let address = provider.url(self.query.as_str()).unwrap();
        SearchStep::Load(provider, address)
    }

    /// The page of the site was loaded, or could not be: what the search tells, where the
    /// site gave results. Where it gave none, the next site is asked.
    pub fn took(&mut self, loaded: Result<&str, &str>) -> (done: Option<String>)
        ensures
            final(self)@ == old(self)@.after(loaded_view(loaded)),
            old(self)@.site() is None ==> done is None,
            old(self)@.site() is Some ==> match old(self)@.outcome(loaded_view(loaded)) {
                Ok(output) => done matches Some(told) && told@ == output,
                Err(_) => done is None,
            },
    {
        let ghost before = self@;
        assert(self.errors.deep_view().len() == self.errors@.len());
        let provider = if self.errors.len() == 0 {
            Provider::DuckDuckGo
        } else if self.errors.len() == 1 {
            Provider::Bing
        } else {
            return None;
        };
        let outcome = match loaded {
            Ok(html) => search_page(self.query.as_str(), provider, html, self.limit),
            Err(error) => Err(load_failed(provider, error)),
        };
        match outcome {
            Ok(output) => Some(output),
            Err(error) => {
                let ghost told = self.errors.deep_view();
                let ghost view = error@;
                self.errors.push(error);
                assert(self.errors.deep_view() =~= told.push(view));
                None
            },
        }
    }
}

/// DuckDuckGo is asked first. Bing is asked just where DuckDuckGo could not be loaded or
/// gave no result, and the search fails, with what was said of both, just where Bing did
/// not help either.
pub proof fn fallback_law(
    query: Seq<char>,
    limit: usize,
    first: Result<Seq<char>, Seq<char>>,
    second: Result<Seq<char>, Seq<char>>,
)
    ensures
        ({
            let start = SearchView { query, limit, errors: Seq::empty() };
            let duck = site_outcome(Provider::DuckDuckGo, query, limit, first);
            let bing = site_outcome(Provider::Bing, query, limit, second);
            let next = start.after(first);
            let last = next.after(second);
            &&& start.site() == Some(Provider::DuckDuckGo)
            &&& start.outcome(first) == duck
            &&& next.site() == Some(Provider::Bing) <==> duck is Err
            &&& duck is Err ==> next.outcome(second) == bing
            &&& duck is Err && bing is Err <==> last.site() is None
            &&& duck is Err && bing is Err ==> last.failure() == "web search failed: "@
                + duck->Err_0 + "; "@ + bing->Err_0
            &&& duck is Err <==> (first is Err || page_results(
                Provider::DuckDuckGo,
                first->Ok_0,
                limit,
            ).len() == 0)
            &&& bing is Err <==> (second is Err || page_results(
                Provider::Bing,
                second->Ok_0,
                limit,
            ).len() == 0)
        }),
{
    let start = SearchView { query, limit, errors: Seq::empty() };
    let last = start.after(first).after(second);
    if last.errors.len() == 2 {
        assert(last.errors.drop_last() =~= seq![last.errors[0]]);
        reveal_with_fuel(join, 2);
        assert(last.failure() =~= "web search failed: "@ + last.errors[0] + "; "@ + last.errors[1]);
    }
}

} // verus!
