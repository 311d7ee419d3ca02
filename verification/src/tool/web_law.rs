//! What holds of pages and searches: what is read from a page, and what is told of it.
use super::headless::{
    all_paths, diagnostics, missing_part, reply_of, request_json, startup_fault, BlockView,
    FirstLine, LinkView, PageView,
};
use super::web_browser::{
    block_text, blocks_text, link_json, links_from, links_law, page_json, page_text, told_link,
};
use super::web_search::{
    element_text, entry_of, hidden_address, output_json, result_json, results_from, results_law,
    search_base, search_pairs, snippets_of, target, ElementView, Provider, ResultView,
};
use crate::encoding::base64_url_bytes;
use crate::json::{read_json, JsonView};
use crate::json_law::{entry_law, no_entry_law};
use crate::project::path_in;
use crate::text::{has_suffix, join, trim, words};
use crate::text_law::{dense, is_blank, words_law};
use crate::web_url::{is_web, is_web_address, pair_value, read_url};
use vstd::prelude::*;
use vstd::string::*;
use vstd::utf8::*;

verus! {

// ---------------------------------------------------------------------------
// Results
// ---------------------------------------------------------------------------

/// What an address holds under a key is the first that it names so.
pub proof fn pair_law(pairs: Seq<(Seq<char>, Seq<char>)>, key: Seq<char>, i: int)
    ensures
        0 <= i < pairs.len() && pairs[i].0 == key && (forall|k: int|
            0 <= k < i ==> (#[trigger] pairs[k]).0 != key) ==> pair_value(pairs, key) == Some(
            pairs[i].1,
        ),
        (forall|k: int| 0 <= k < pairs.len() ==> (#[trigger] pairs[k]).0 != key) <==> pair_value(
            pairs,
            key,
        ) is None,
    decreases pairs.len(),
{
    if pairs.len() > 0 {
        let rest = pairs.skip(1);
        pair_law(rest, key, i - 1);
        assert forall|k: int| 0 <= k < rest.len() implies #[trigger] rest[k] == pairs[k + 1] by {}
        if pairs[0].0 != key {
            if forall|k: int| 0 <= k < rest.len() ==> (#[trigger] rest[k]).0 != key {
                assert forall|k: int| 0 <= k < pairs.len() implies (#[trigger] pairs[k]).0
                    != key by {
                    if k > 0 {
                        assert(rest[k - 1].0 != key);
                    }
                }
            } else {
                let k = choose|k: int| 0 <= k < rest.len() && (#[trigger] rest[k]).0 == key;
                assert(pairs[k + 1].0 == key);
            }
            if i > 0 && i < pairs.len() {
                assert(rest[i - 1] == pairs[i]);
            }
        }
    }
}

/// A link leads to a page: to the one that it names where it goes through a search site, else
/// to its own address. What is no page of the web is never a target.
pub proof fn target_law(href: Seq<char>)
    ensures
        target(href) is Some ==> is_web_address(target(href)->0),
        read_url(href) is None ==> target(href) is None,
        read_url(href) is Some ==> {
            let url = read_url(href)->0;
            let duck = url.host is Some && has_suffix(url.host->0, "duckduckgo.com"@);
            let named = pair_value(url.pairs, "uddg"@);
            let encoded = pair_value(url.pairs, "u"@);
            let bing = url.host == Some("www.bing.com"@);
            &&& duck && named is Some && is_web_address(named->0) ==> target(href) == named
            &&& duck && named is Some && !is_web_address(named->0) ==> target(href) is None
            &&& !(duck && named is Some) && !bing && is_web(url) ==> target(href) == Some(href)
            &&& !(duck && named is Some) && !bing && !is_web(url) ==> target(href) is None
            &&& !(duck && named is Some) && bing && encoded is None ==> target(href) is None
            &&& !(duck && named is Some) && bing && encoded is Some ==> target(href)
                == hidden_address(encoded->0)
        },
{
}

/// An address in disguise is read with and without its mark.
pub proof fn hidden_law(encoded: Seq<char>, text: Seq<char>)
    requires
        base64_url_bytes(encoded) == Some(encode_utf8(text)),
        is_web_address(text),
    ensures
        hidden_address(seq!['a', '1'] + encoded) == Some(text),
        !(encoded.len() >= 2 && encoded[0] == 'a' && encoded[1] == '1') ==> hidden_address(encoded)
            == Some(text),
{
    reveal_strlit("a1");
    encode_utf8_valid_utf8(text);
    encode_utf8_decode_utf8(text);
    let marked = seq!['a', '1'] + encoded;
    assert(marked.skip(2) =~= encoded);
    assert(marked.take(2) =~= "a1"@);
    assert(marked.subrange(0, 2) =~= "a1"@);
    if encoded.len() >= 2 && encoded.subrange(0, 2) == "a1"@ {
        assert(encoded[0] == encoded.subrange(0, 2)[0]);
        assert(encoded[1] == encoded.subrange(0, 2)[1]);
    }
}

/// A link's words are those of the page, one space between two of them.
pub proof fn element_law(element: ElementView)
    ensures
        element_text(element) == join(words(join(element.texts, seq![' '])), seq![' ']),
        words(join(element.texts, seq![' '])).flatten() == dense(join(element.texts, seq![' '])),
{
    reveal_strlit(" ");
    assert(" "@ =~= seq![' ']);
    words_law(join(element.texts, seq![' ']));
}

/// A link with a title that leads to a page is listed so; any other is not listed.
pub proof fn entry_of_law(link: ElementView)
    ensures
        entry_of(None) is None,
        link.href is None ==> entry_of(Some(link)) is None,
        link.href is Some ==> (entry_of(Some(link)) is Some <==> target(link.href->0) is Some
            && element_text(link).len() > 0),
        entry_of(Some(link)) is Some ==> entry_of(Some(link)) == Some(
            (element_text(link), target(link.href->0)->0),
        ),
{
}

/// The link at `k` leads to `url`.
pub open spec fn leads_to(links: Seq<Option<ElementView>>, k: int, url: Seq<char>) -> bool {
    0 <= k < links.len() && entry_of(links[k]) is Some && (entry_of(links[k])->0).1 == url
}

/// The link at `k` is the first to lead where the result leads, and the result tells its
/// title and its words.
pub open spec fn tells_of(
    result: ResultView,
    links: Seq<Option<ElementView>>,
    snippets: Seq<Seq<char>>,
    i: int,
    k: int,
) -> bool {
    &&& i <= k
    &&& leads_to(links, k, result.url)
    &&& result.title == (entry_of(links[k])->0).0
    &&& k < snippets.len() ==> result.snippet == snippets[k]
    &&& k >= snippets.len() ==> result.snippet.len() == 0
    &&& forall|m: int| i <= m < k ==> !#[trigger] leads_to(links, m, result.url)
}

/// The result tells of a link.
pub open spec fn tells_of_one(
    result: ResultView,
    links: Seq<Option<ElementView>>,
    snippets: Seq<Seq<char>>,
    i: int,
) -> bool {
    exists|k: int| #[trigger] tells_of(result, links, snippets, i, k)
}

/// A link before `m` leads to `url`.
pub open spec fn led_before(
    links: Seq<Option<ElementView>>,
    i: int,
    m: int,
    url: Seq<char>,
) -> bool {
    exists|k: int| i <= k < m && #[trigger] leads_to(links, k, url)
}

/// A result leads to `url`.
pub open spec fn is_listed(results: Seq<ResultView>, url: Seq<char>) -> bool {
    exists|j: int| 0 <= j < results.len() && (#[trigger] results[j]).url == url
}

/// Each result tells of the first link to its page, with the words beside that link, and the
/// results stand as their links do; where there is room, no page is left out.
pub proof fn found_law(
    links: Seq<Option<ElementView>>,
    snippets: Seq<Seq<char>>,
    i: int,
    seen: Set<Seq<char>>,
    left: nat,
)
    requires
        0 <= i,
    ensures
        ({
            let results = results_from(links, snippets, i, seen, left);
            &&& forall|j: int|
                0 <= j < results.len() ==> tells_of_one(#[trigger] results[j], links, snippets, i)
            &&& forall|a: int, b: int, m: int|
                0 <= a < b < results.len() && i <= m
                    && #[trigger] leads_to(links, m, results[b].url)
                    ==> #[trigger] led_before(links, i, m, results[a].url)
            &&& results.len() < left ==> forall|k: int, url: Seq<char>|
                i <= k && #[trigger] leads_to(links, k, url) && !seen.contains(url) ==> is_listed(
                    results,
                    url,
                )
        }),
    decreases links.len() - i,
{
    let results = results_from(links, snippets, i, seen, left);
    if i < links.len() && left > 0 {
        results_law(links, snippets, i, seen, left);
        let taken = entry_of(links[i]) is Some && !seen.contains((entry_of(links[i])->0).1);
        let url = (entry_of(links[i])->0).1;
        let later = if taken {
            seen.insert(url)
        } else {
            seen
        };
        let room = if taken {
            (left - 1) as nat
        } else {
            left
        };
        let rest = results_from(links, snippets, i + 1, later, room);
        let shift: int = if taken {
            1
        } else {
            0
        };
        found_law(links, snippets, i + 1, later, room);
        results_law(links, snippets, i + 1, later, room);
        assert forall|j: int| 0 <= j < rest.len() implies results[j + shift] == #[trigger] rest[j] by {}
        assert forall|j: int| 0 <= j < results.len() implies tells_of_one(
            #[trigger] results[j],
            links, snippets,
            i,
        ) by {
            if taken && j == 0 {
                assert(tells_of(results[0], links, snippets, i, i));
            } else {
                let r = rest[j - shift];
                assert(r == results[j]);
                assert(tells_of_one(rest[j - shift], links, snippets, i + 1));
                let k = choose|k: int| #[trigger] tells_of(r, links, snippets, i + 1, k);
                assert(!leads_to(links, i, r.url));
                assert(tells_of(results[j], links, snippets, i, k));
            }
        }
        assert forall|a: int, b: int, m: int|
            0 <= a < b < results.len() && i <= m && #[trigger] leads_to(
                links,
                m,
                results[b].url,
            ) implies #[trigger] led_before(links, i, m, results[a].url) by {
            let last = rest[b - shift];
            assert(last == results[b]);
            assert(m > i);
            if taken && a == 0 {
                assert(leads_to(links, i, results[0].url));
            } else {
                let first = rest[a - shift];
                assert(first == results[a]);
                assert(leads_to(links, m, rest[b - shift].url));
                assert(led_before(links, i + 1, m, rest[a - shift].url));
                let k = choose|k: int| i + 1 <= k < m && #[trigger] leads_to(links, k, first.url);
                assert(leads_to(links, k, results[a].url));
            }
        }
        if results.len() < left {
            assert forall|k: int, other: Seq<char>|
                i <= k && #[trigger] leads_to(links, k, other) && !seen.contains(
                    other,
                ) implies is_listed(results, other) by {
                if taken && other == url {
                    assert(results[0].url == other);
                } else {
                    assert(k > i);
                    assert(is_listed(rest, other));
                    let j = choose|j: int| 0 <= j < rest.len() && (#[trigger] rest[j]).url == other;
                    assert(results[j + shift].url == other);
                }
            }
        }
    }
}

/// The words beside a link are the first that are there.
pub proof fn snippet_law(
    first: Seq<Option<ElementView>>,
    second: Seq<Option<ElementView>>,
    i: int,
)
    requires
        0 <= i < first.len(),
    ensures
        snippets_of(first, second).len() == first.len(),
        first[i] is Some ==> snippets_of(first, second)[i] == element_text(first[i]->0),
        first[i] is None && i < second.len() && second[i] is Some ==> snippets_of(first, second)[i]
            == element_text(second[i]->0),
        first[i] is None && (i >= second.len() || second[i] is None) ==> snippets_of(
            first,
            second,
        )[i].len() == 0,
{
}

/// A search asks for just what was asked for.
pub proof fn query_law(provider: Provider, query: Seq<char>)
    ensures
        pair_value(search_pairs(provider, query), "q"@) == Some(query),
        provider == Provider::Bing ==> search_pairs(provider, query).len() == 1,
        provider == Provider::DuckDuckGo ==> pair_value(search_pairs(provider, query), "ia"@)
            == Some("web"@),
{
    reveal_strlit("q");
    reveal_strlit("ia");
    assert("q"@.len() != "ia"@.len());
    let pairs = search_pairs(provider, query);
    assert(pairs[0].0 == "q"@);
    if provider == Provider::DuckDuckGo {
        assert(pairs[1].0 == "ia"@);
        assert forall|k: int| 0 <= k < 1 implies (#[trigger] pairs[k]).0 != "ia"@ by {
            assert(k == 0);
        }
        pair_law(pairs, "ia"@, 1);
    }
    pair_law(pairs, "q"@, 0);
}

/// Each site is asked at its own address.
pub proof fn site_law(provider: Provider)
    ensures
        provider == Provider::DuckDuckGo ==> search_base(provider) == "https://duckduckgo.com/"@,
        provider == Provider::Bing ==> search_base(provider) == "https://www.bing.com/search"@,
{
}

/// A result is told with its title, its address and its words.
pub proof fn result_law(result: ResultView)
    ensures
        result_json(result).text_at("title"@) == Some(result.title),
        result_json(result).text_at("url"@) == Some(result.url),
        result_json(result).text_at("snippet"@) == Some(result.snippet),
{
    reveal_strlit("title");
    reveal_strlit("url");
    reveal_strlit("snippet");
    assert("title"@.len() != "url"@.len());
    assert("title"@.len() != "snippet"@.len());
    assert("url"@.len() != "snippet"@.len());
    let fields = result_json(result)->Object_0;
    assert(fields[0].0 == "title"@);
    assert(fields[1].0 == "url"@);
    assert(fields[2].0 == "snippet"@);
    entry_law(fields, 0);
    assert forall|k: int| 0 <= k < 1 implies (#[trigger] fields[k]).0 != fields[1].0 by {
        assert(k == 0);
    }
    entry_law(fields, 1);
    assert forall|k: int| 0 <= k < 2 implies (#[trigger] fields[k]).0 != fields[2].0 by {
        assert(k == 0 || k == 1);
    }
    entry_law(fields, 2);
}

/// What is told of a search is its query, the site that was asked, and each result in its
/// order.
pub proof fn output_law(query: Seq<char>, provider: Provider, results: Seq<ResultView>, i: int)
    ensures
        ({
            let told = output_json(query, provider, results);
            &&& told.text_at("query"@) == Some(query)
            &&& provider == Provider::DuckDuckGo ==> told.text_at("provider"@) == Some(
                "duckduckgo"@,
            )
            &&& provider == Provider::Bing ==> told.text_at("provider"@) == Some("bing"@)
            &&& told.get("results"@) is Some
            &&& told.get("results"@)->0 is Array
            &&& told.get("results"@)->0->Array_0.len() == results.len()
            &&& 0 <= i < results.len() ==> told.get("results"@)->0->Array_0[i] == result_json(
                results[i],
            )
        }),
{
    reveal_strlit("query");
    reveal_strlit("provider");
    reveal_strlit("results");
    assert("query"@.len() != "provider"@.len());
    assert("query"@.len() != "results"@.len());
    assert("provider"@.len() != "results"@.len());
    let fields = output_json(query, provider, results)->Object_0;
    assert(fields[0].0 == "query"@);
    assert(fields[1].0 == "provider"@);
    assert(fields[2].0 == "results"@);
    entry_law(fields, 0);
    assert forall|k: int| 0 <= k < 1 implies (#[trigger] fields[k]).0 != fields[1].0 by {
        assert(k == 0);
    }
    entry_law(fields, 1);
    assert forall|k: int| 0 <= k < 2 implies (#[trigger] fields[k]).0 != fields[2].0 by {
        assert(k == 0 || k == 1);
    }
    entry_law(fields, 2);
}

// ---------------------------------------------------------------------------
// Pages
// ---------------------------------------------------------------------------

/// Blocks without words are left out, and the others are told in their order.
pub proof fn blocks_law(a: Seq<BlockView>, b: Seq<BlockView>)
    ensures
        blocks_text(a + b) == blocks_text(a) + blocks_text(b),
        a.len() == 1 && trim(a[0].text).len() == 0 ==> blocks_text(a).len() == 0,
        a.len() == 1 && trim(a[0].text).len() > 0 ==> blocks_text(a) == seq![block_text(a[0])->0],
    decreases b.len(),
{
    if b.len() == 0 {
        assert(a + b =~= a);
    } else {
        assert((a + b).drop_last() =~= a + b.drop_last());
        blocks_law(a, b.drop_last());
        assert(blocks_text(a + b) =~= blocks_text(a) + blocks_text(b));
    }
    if a.len() == 1 {
        assert(a.drop_last() =~= Seq::empty());
        assert(blocks_text(a.drop_last()) =~= Seq::empty());
    }
}

/// A block is told by what it is: headings, items, quotes and code are marked, and all else
/// is told as it is.
pub proof fn block_law(said: Seq<char>, tag: Seq<char>)
    requires
        trim(said).len() > 0,
    ensures
        block_text(BlockView { tag: "h1"@, text: said }) == Some("# "@ + trim(said)),
        block_text(BlockView { tag: "h2"@, text: said }) == Some("## "@ + trim(said)),
        block_text(BlockView { tag: "h3"@, text: said }) == Some("### "@ + trim(said)),
        block_text(BlockView { tag: "h4"@, text: said }) == Some("#### "@ + trim(said)),
        block_text(BlockView { tag: "h5"@, text: said }) == Some("#### "@ + trim(said)),
        block_text(BlockView { tag: "h6"@, text: said }) == Some("#### "@ + trim(said)),
        block_text(BlockView { tag: "li"@, text: said }) == Some("- "@ + trim(said)),
        block_text(BlockView { tag: "blockquote"@, text: said }) == Some("> "@ + trim(said)),
        block_text(BlockView { tag: "pre"@, text: said }) == Some(
            "```\n"@ + trim(said) + "\n```"@,
        ),
        tag != "h1"@ && tag != "h2"@ && tag != "h3"@ && tag != "h4"@ && tag != "h5"@
            && tag != "h6"@ && tag != "li"@ && tag != "blockquote"@
            && tag != "pre"@ ==> block_text(BlockView { tag, text: said })
            == Some(trim(said)),
{
    reveal_strlit("h1");
    reveal_strlit("h2");
    reveal_strlit("h3");
    reveal_strlit("h4");
    reveal_strlit("h5");
    reveal_strlit("h6");
    reveal_strlit("li");
    reveal_strlit("blockquote");
    reveal_strlit("pre");
    assert("h1"@[1] != "h2"@[1]);
    assert("h1"@[1] != "h3"@[1]);
    assert("h1"@[1] != "h4"@[1]);
    assert("h1"@[1] != "h5"@[1]);
    assert("h1"@[1] != "h6"@[1]);
    assert("h1"@[0] != "li"@[0]);
    assert("h1"@.len() != "blockquote"@.len());
    assert("h1"@.len() != "pre"@.len());
    assert("h2"@[1] != "h3"@[1]);
    assert("h2"@[1] != "h4"@[1]);
    assert("h2"@[1] != "h5"@[1]);
    assert("h2"@[1] != "h6"@[1]);
    assert("h2"@[0] != "li"@[0]);
    assert("h2"@.len() != "blockquote"@.len());
    assert("h2"@.len() != "pre"@.len());
    assert("h3"@[1] != "h4"@[1]);
    assert("h3"@[1] != "h5"@[1]);
    assert("h3"@[1] != "h6"@[1]);
    assert("h3"@[0] != "li"@[0]);
    assert("h3"@.len() != "blockquote"@.len());
    assert("h3"@.len() != "pre"@.len());
    assert("h4"@[1] != "h5"@[1]);
    assert("h4"@[1] != "h6"@[1]);
    assert("h4"@[0] != "li"@[0]);
    assert("h4"@.len() != "blockquote"@.len());
    assert("h4"@.len() != "pre"@.len());
    assert("h5"@[1] != "h6"@[1]);
    assert("h5"@[0] != "li"@[0]);
    assert("h5"@.len() != "blockquote"@.len());
    assert("h5"@.len() != "pre"@.len());
    assert("h6"@[0] != "li"@[0]);
    assert("h6"@.len() != "blockquote"@.len());
    assert("h6"@.len() != "pre"@.len());
    assert("li"@.len() != "blockquote"@.len());
    assert("li"@.len() != "pre"@.len());
    assert("blockquote"@.len() != "pre"@.len());
}

/// The text of a page is its blocks, an empty line between two; a page without blocks is
/// told by what is seen of it.
pub proof fn page_law(page: PageView, i: int)
    ensures
        blocks_text(page.blocks).len() > 0 ==> page_text(page) == join(
            blocks_text(page.blocks),
            seq!['\n', '\n'],
        ),
        blocks_text(page.blocks).len() == 0 ==> page_text(page) == trim(page.visible_text),
        ({
            let told = page_json(page);
            let links = links_from(page.links, 0, Set::empty(), 50);
            &&& told.text_at("url"@) == Some(page.url)
            &&& told.text_at("title"@) == Some(page.title)
            &&& told.text_at("content"@) == Some(page_text(page))
            &&& told.get("links"@) is Some
            &&& told.get("links"@)->0 is Array
            &&& told.get("links"@)->0->Array_0.len() == links.len()
            &&& 0 <= i < links.len() ==> told.get("links"@)->0->Array_0[i].text_at("text"@) == Some(
                links[i].text,
            )
            &&& 0 <= i < links.len() ==> told.get("links"@)->0->Array_0[i].text_at("url"@) == Some(
                links[i].url,
            )
        }),
{
    reveal_strlit("\n\n");
    assert("\n\n"@ =~= seq!['\n', '\n']);
    reveal_strlit("url");
    reveal_strlit("title");
    reveal_strlit("content");
    reveal_strlit("links");
    reveal_strlit("text");
    assert("url"@.len() != "title"@.len());
    assert("url"@.len() != "content"@.len());
    assert("url"@.len() != "links"@.len());
    assert("url"@.len() != "text"@.len());
    assert("title"@.len() != "content"@.len());
    assert("title"@[0] != "links"@[0]);
    assert("title"@.len() != "text"@.len());
    assert("content"@.len() != "links"@.len());
    assert("content"@.len() != "text"@.len());
    assert("links"@.len() != "text"@.len());
    let fields = page_json(page)->Object_0;
    assert(fields[0].0 == "url"@);
    assert(fields[1].0 == "title"@);
    assert(fields[2].0 == "content"@);
    assert(fields[3].0 == "links"@);
    entry_law(fields, 0);
    assert forall|k: int| 0 <= k < 1 implies (#[trigger] fields[k]).0 != fields[1].0 by {
        assert(k == 0);
    }
    entry_law(fields, 1);
    assert forall|k: int| 0 <= k < 2 implies (#[trigger] fields[k]).0 != fields[2].0 by {
        assert(k == 0 || k == 1);
    }
    entry_law(fields, 2);
    assert forall|k: int| 0 <= k < 3 implies (#[trigger] fields[k]).0 != fields[3].0 by {
        assert(k == 0 || k == 1 || k == 2);
    }
    entry_law(fields, 3);
    let links = links_from(page.links, 0, Set::empty(), 50);
    if 0 <= i < links.len() {
        let inner = link_json(links[i])->Object_0;
        assert(inner[0].0 == "text"@);
        assert(inner[1].0 == "url"@);
        entry_law(inner, 0);
        assert forall|k: int| 0 <= k < 1 implies (#[trigger] inner[k]).0 != inner[1].0 by {
            assert(k == 0);
        }
        entry_law(inner, 1);
    }
}

/// A link is told where it leads to a page of the web and says something, with its words and
/// without what follows the page in its address.
pub proof fn link_law(link: LinkView)
    ensures
        told_link(link) is Some <==> read_url(link.url) is Some && is_web(read_url(link.url)->0)
            && words(link.text).len() > 0,
        told_link(link) is Some ==> {
            &&& told_link(link)->0.url == read_url(link.url)->0.plain
            &&& told_link(link)->0.text == join(words(link.text), seq![' '])
        },
{
    reveal_strlit(" ");
    assert(" "@ =~= seq![' ']);
    words_law(link.text);
    joined_words(words(link.text));
}

proof fn joined_words(said: Seq<Seq<char>>)
    requires
        forall|i: int| 0 <= i < said.len() ==> (#[trigger] said[i]).len() > 0,
    ensures
        join(said, " "@).len() > 0 <==> said.len() > 0,
{
    if said.len() > 0 {
        assert(said[said.len() - 1].len() > 0);
    }
}

/// The link at `k` is told with the address `url`.
pub open spec fn told_as(links: Seq<LinkView>, k: int, url: Seq<char>) -> bool {
    0 <= k < links.len() && told_link(links[k]) is Some && told_link(links[k])->0.url == url
}

/// The link at `k` is the first that is told so.
pub open spec fn stands_for(told: LinkView, links: Seq<LinkView>, i: int, k: int) -> bool {
    &&& i <= k
    &&& told_as(links, k, told.url)
    &&& told_link(links[k]) == Some(told)
    &&& forall|m: int| i <= m < k ==> !#[trigger] told_as(links, m, told.url)
}

/// What is told is one of the links.
pub open spec fn stands_for_one(told: LinkView, links: Seq<LinkView>, i: int) -> bool {
    exists|k: int| #[trigger] stands_for(told, links, i, k)
}

/// A link before `m` is told with the address `url`.
pub open spec fn told_before(links: Seq<LinkView>, i: int, m: int, url: Seq<char>) -> bool {
    exists|k: int| i <= k < m && #[trigger] told_as(links, k, url)
}

/// The address `url` is told.
pub open spec fn is_told(told: Seq<LinkView>, url: Seq<char>) -> bool {
    exists|j: int| 0 <= j < told.len() && (#[trigger] told[j]).url == url
}

/// Each link that is told is the first to its page, and they stand as on the page; where
/// there is room, none is left out.
pub proof fn page_links_law(links: Seq<LinkView>, i: int, seen: Set<Seq<char>>, left: nat)
    requires
        0 <= i,
    ensures
        ({
            let told = links_from(links, i, seen, left);
            &&& forall|j: int|
                0 <= j < told.len() ==> stands_for_one(#[trigger] told[j], links, i)
            &&& forall|a: int, b: int, m: int|
                0 <= a < b < told.len() && i <= m && #[trigger] told_as(links, m, told[b].url)
                    ==> #[trigger] told_before(links, i, m, told[a].url)
            &&& told.len() < left ==> forall|k: int, url: Seq<char>|
                i <= k && #[trigger] told_as(links, k, url) && !seen.contains(url) ==> is_told(
                    told,
                    url,
                )
        }),
    decreases links.len() - i,
{
    let told = links_from(links, i, seen, left);
    if i < links.len() && left > 0 {
        links_law(links, i, seen, left);
        let taken = told_link(links[i]) is Some && !seen.contains(told_link(links[i])->0.url);
        let url = told_link(links[i])->0.url;
        let later = if taken {
            seen.insert(url)
        } else {
            seen
        };
        let room = if taken {
            (left - 1) as nat
        } else {
            left
        };
        let rest = links_from(links, i + 1, later, room);
        let shift: int = if taken {
            1
        } else {
            0
        };
        page_links_law(links, i + 1, later, room);
        links_law(links, i + 1, later, room);
        assert forall|j: int| 0 <= j < rest.len() implies told[j + shift] == #[trigger] rest[j] by {}
        assert forall|j: int| 0 <= j < told.len() implies stands_for_one(
            #[trigger] told[j],
            links,
            i,
        ) by {
            if taken && j == 0 {
                assert(stands_for(told[0], links, i, i));
            } else {
                let r = rest[j - shift];
                assert(r == told[j]);
                assert(stands_for_one(rest[j - shift], links, i + 1));
                let k = choose|k: int| #[trigger] stands_for(r, links, i + 1, k);
                assert(!told_as(links, i, r.url));
                assert(stands_for(told[j], links, i, k));
            }
        }
        assert forall|a: int, b: int, m: int|
            0 <= a < b < told.len() && i <= m && #[trigger] told_as(
                links,
                m,
                told[b].url,
            ) implies #[trigger] told_before(links, i, m, told[a].url) by {
            let last = rest[b - shift];
            assert(last == told[b]);
            assert(m > i);
            if taken && a == 0 {
                assert(told_as(links, i, told[0].url));
            } else {
                let first = rest[a - shift];
                assert(first == told[a]);
                assert(told_as(links, m, rest[b - shift].url));
                assert(told_before(links, i + 1, m, rest[a - shift].url));
                let k = choose|k: int| i + 1 <= k < m && #[trigger] told_as(links, k, first.url);
                assert(told_as(links, k, told[a].url));
            }
        }
        if told.len() < left {
            assert forall|k: int, other: Seq<char>|
                i <= k && #[trigger] told_as(links, k, other) && !seen.contains(
                    other,
                ) implies is_told(told, other) by {
                if taken && other == url {
                    assert(told[0].url == other);
                } else {
                    assert(k > i);
                    assert(is_told(rest, other));
                    let j = choose|j: int| 0 <= j < rest.len() && (#[trigger] rest[j]).url == other;
                    assert(told[j + shift].url == other);
                }
            }
        }
    }
}

// ---------------------------------------------------------------------------
// The helper
// ---------------------------------------------------------------------------

/// A request says which it is, what is to be done, and where.
pub proof fn helper_request_law(id: u64, method: Seq<char>, url: Option<Seq<char>>)
    ensures
        request_json(id, method, url).get("id"@) == Some(JsonView::Unsigned(id)),
        request_json(id, method, url).text_at("method"@) == Some(method),
        request_json(id, method, url).text_at("url"@) == url,
{
    reveal_strlit("id");
    reveal_strlit("method");
    reveal_strlit("url");
    assert("id"@.len() != "method"@.len());
    assert("id"@.len() != "url"@.len());
    assert("method"@.len() != "url"@.len());
    let fields = request_json(id, method, url)->Object_0;
    assert(fields[0].0 == "id"@);
    assert(fields[1].0 == "method"@);
    entry_law(fields, 0);
    entry_law(fields, 1);
    if url is Some {
        assert(fields[2].0 == "url"@);
        assert forall|k: int| 0 <= k < 2 implies (#[trigger] fields[k]).0 != fields[2].0 by {
            assert(k == 0 || k == 1);
        }
        entry_law(fields, 2);
    } else {
        assert forall|k: int| 0 <= k < fields.len() implies (#[trigger] fields[k]).0 != "url"@ by {
            assert(k == 0 || k == 1);
        }
        no_entry_law(fields, "url"@);
    }
}

/// A reply answers the request that it names: an error where it holds one, and else what it
/// holds.
pub proof fn helper_reply_law(message: JsonView)
    ensures
        reply_of(message) is Some <==> message.number_at("id"@) is Some,
        reply_of(message) is Some ==> {
            &&& (reply_of(message)->0).0 == message.number_at("id"@)->0
            &&& message.text_at("error"@) is Some ==> (reply_of(message)->0).1 == Err::<
                JsonView,
                Seq<char>,
            >(message.text_at("error"@)->0)
            &&& message.text_at("error"@) is None && message.get("result"@) is Some ==> (reply_of(
                message,
            )->0).1 == Ok::<JsonView, Seq<char>>(message.get("result"@)->0)
            &&& message.text_at("error"@) is None && message.get("result"@) is None ==> (reply_of(
                message,
            )->0).1 == Ok::<JsonView, Seq<char>>(JsonView::Null)
        },
{
}

/// The helper is up just where its first line says so.
pub proof fn startup_law(first: FirstLine, kept: Seq<char>)
    ensures
        startup_fault(first, kept) is None <==> first is Line && read_json(first->Line_0@) is Some
            && read_json(first->Line_0@)->0.bool_at("ready"@) == Some(true),
        is_blank(kept) ==> diagnostics(kept) == "no diagnostics"@,
        !is_blank(kept) ==> diagnostics(kept) == trim(kept),
{
    crate::text_law::trim_law(kept);
}

/// A runtime is whole just where each of its parts is there; else the first that is missing
/// is named.
pub proof fn whole_law(entries: Seq<(Seq<char>, bool)>, i: int)
    ensures
        missing_part(entries) is None <==> forall|k: int|
            0 <= k < entries.len() ==> (#[trigger] entries[k]).1,
        0 <= i < entries.len() && !entries[i].1 && (forall|k: int|
            0 <= k < i ==> (#[trigger] entries[k]).1) ==> missing_part(entries) == Some(
            "incomplete Patchright runtime: "@ + entries[i].0 + " is missing"@,
        ),
    decreases entries.len(),
{
    if entries.len() > 0 && entries[0].1 {
        let rest = entries.skip(1);
        whole_law(rest, i - 1);
        assert forall|k: int| 0 <= k < rest.len() implies #[trigger] rest[k] == entries[k + 1] by {}
        if forall|k: int| 0 <= k < rest.len() ==> (#[trigger] rest[k]).1 {
            assert forall|k: int| 0 <= k < entries.len() implies (#[trigger] entries[k]).1 by {
                if k > 0 {
                    assert(rest[k - 1].1);
                }
            }
        } else {
            let k = choose|k: int| 0 <= k < rest.len() && !(#[trigger] rest[k]).1;
            assert(!entries[k + 1].1);
        }
    }
}

/// Each name is looked for in each place, the places in their order.
pub proof fn places_law(a: Seq<Seq<char>>, b: Seq<Seq<char>>, names: Seq<Seq<char>>, i: int)
    ensures
        all_paths(a + b, names) == all_paths(a, names) + all_paths(b, names),
        a.len() == 1 ==> all_paths(a, names).len() == names.len(),
        a.len() == 1 && 0 <= i < names.len() ==> all_paths(a, names)[i] == path_in(a[0], names[i]),
    decreases b.len(),
{
    if b.len() == 0 {
        assert(a + b =~= a);
        assert(all_paths(a, names) + all_paths(b, names) =~= all_paths(a, names));
    } else {
        assert((a + b).drop_last() =~= a + b.drop_last());
        places_law(a, b.drop_last(), names, i);
        assert(all_paths(a + b, names) =~= all_paths(a, names) + all_paths(b, names));
    }
    if a.len() == 1 {
        assert(a.drop_last() =~= Seq::empty());
        assert(all_paths(a.drop_last(), names) =~= Seq::empty());
    }
}

} // verus!
