//! Pages of the web as text and links.
use super::headless::{
    BlockView, BrowserBlock, BrowserLink, BrowserPage, LinkView, PageView,
};
use crate::json;
use crate::json::{written_pretty, Json, JsonView};
use crate::text;
use crate::text::{join, trim, words};
use crate::text_set::TextSet;
use crate::web_url::{has_web_scheme, is_web, parse_url, read_url, url_fault};
use vstd::prelude::*;
use vstd::string::*;

verus! {

/// The most links that are told of a page.
pub const MAX_LINKS: usize = 50;

#[derive(Debug, PartialEq)]
pub struct PageLink {
    pub text: String,
    pub url: String,
}

impl DeepView for PageLink {
    type V = LinkView;

    open spec fn deep_view(&self) -> LinkView {
        LinkView { text: self.text@, url: self.url@ }
    }
}

#[derive(Debug, PartialEq)]
pub struct PageContent {
    pub content: String,
    pub links: Vec<PageLink>,
}

/// What a block of a page is told as; nothing where it says nothing.
pub open spec fn block_text(block: BlockView) -> Option<Seq<char>> {
    let said = trim(block.text);
    let tag = block.tag;
    if said.len() == 0 {
        None
    } else if tag == "h1"@ {
        Some("# "@ + said)
    } else if tag == "h2"@ {
        Some("## "@ + said)
    } else if tag == "h3"@ {
        Some("### "@ + said)
    } else if tag == "h4"@ || tag == "h5"@ || tag == "h6"@ {
        Some("#### "@ + said)
    } else if tag == "li"@ {
        Some("- "@ + said)
    } else if tag == "blockquote"@ {
        Some("> "@ + said)
    } else if tag == "pre"@ {
        Some("```\n"@ + said + "\n```"@)
    } else {
        Some(said)
    }
}

/// What a block of a page is told as.
pub fn format_block(block: &BrowserBlock) -> (result: Option<String>)
    ensures
        result.deep_view() == block_text(block.deep_view()),
{
    let said = text::trimmed(block.text.as_str());
    let tag = block.tag.as_str();
    if said.as_str().is_empty() {
        None
    } else if text::same(tag, "h1") {
        Some(text::join_two("# ", said.as_str()))
    } else if text::same(tag, "h2") {
        Some(text::join_two("## ", said.as_str()))
    } else if text::same(tag, "h3") {
        Some(text::join_two("### ", said.as_str()))
    } else if text::same(tag, "h4") || text::same(tag, "h5") || text::same(tag, "h6") {
        Some(text::join_two("#### ", said.as_str()))
    } else if text::same(tag, "li") {
        Some(text::join_two("- ", said.as_str()))
    } else if text::same(tag, "blockquote") {
        Some(text::join_two("> ", said.as_str()))
    } else if text::same(tag, "pre") {
        Some(text::join_three("```\n", said.as_str(), "\n```"))
    } else {
        Some(said)
    }
}

/// What the blocks of a page are told as.
pub open spec fn blocks_text(blocks: Seq<BlockView>) -> Seq<Seq<char>>
    decreases blocks.len(),
{
    if blocks.len() == 0 {
        Seq::empty()
    } else {
        let rest = blocks_text(blocks.drop_last());
        match block_text(blocks.last()) {
            Some(said) => rest.push(said),
            None => rest,
        }
    }
}

/// The text of a page: that of its blocks, or all that is seen where there are none.
pub open spec fn page_text(page: PageView) -> Seq<char> {
    let blocks = blocks_text(page.blocks);
    if blocks.len() == 0 {
        trim(page.visible_text)
    } else {
        join(blocks, "\n\n"@)
    }
}

/// A link as it is told; nothing where it leads to no page of the web or has no text.
pub open spec fn told_link(link: LinkView) -> Option<LinkView> {
    match read_url(link.url) {
        Some(url) => {
            let said = join(words(link.text), " "@);
            if is_web(url) && said.len() > 0 {
                Some(LinkView { text: said, url: url.plain })
            } else {
                None
            }
        },
        None => None,
    }
}

/// The links from `i` on, each address once, at most `left`.
pub open spec fn links_from(links: Seq<LinkView>, i: int, seen: Set<Seq<char>>, left: nat) -> Seq<
    LinkView,
>
    decreases links.len() - i,
{
    if i < 0 || i >= links.len() || left == 0 {
        Seq::empty()
    } else {
        match told_link(links[i]) {
            Some(link) if !seen.contains(link.url) => seq![link] + links_from(
                links,
                i + 1,
                seen.insert(link.url),
                (left - 1) as nat,
            ),
            _ => links_from(links, i + 1, seen, left),
        }
    }
}

fn tell_link(link: &BrowserLink) -> (result: Option<PageLink>)
    ensures
        result.deep_view() == told_link(link.deep_view()),
{
    match parse_url(link.url.as_str()) {
        Ok(url) => {
            let said = text::join_all(&text::split_words(link.text.as_str()), " ");
            if has_web_scheme(&url) && !said.as_str().is_empty() {
                Some(PageLink { text: said, url: url.plain })
            } else {
                None
            }
        },
        Err(_) => None,
    }
}

fn page_links(links: &Vec<BrowserLink>) -> (result: Vec<PageLink>)
    ensures
        result.deep_view() == links_from(links.deep_view(), 0, Set::empty(), MAX_LINKS as nat),
{
    let ghost all = links.deep_view();
    let ghost goal = links_from(all, 0, Set::empty(), MAX_LINKS as nat);
    let mut seen = TextSet::new();
    let mut result: Vec<PageLink> = Vec::new();
    let mut i: usize = 0;
    assert(result.deep_view() + goal =~= goal);
    while i < links.len() && result.len() < MAX_LINKS
        invariant
            all == links.deep_view(),
            i <= links@.len(),
            result@.len() <= MAX_LINKS,
            result.deep_view() + links_from(
                all,
                i as int,
                seen@,
                (MAX_LINKS - result@.len()) as nat,
            ) == goal,
        decreases links@.len() - i,
    {
        let ghost before = result.deep_view();
        assert(all[i as int] == links@[i as int].deep_view());
        match tell_link(&links[i]) {
            Some(link) => {
                if !seen.contains(link.url.as_str()) {
                    seen.insert(link.url.clone());
                    let ghost view = link.deep_view();
                    result.push(link);
                    proof {
                        assert(result.deep_view() =~= before.push(view));
                        let rest = links_from(
                            all,
                            i + 1,
                            seen@,
                            (MAX_LINKS - result@.len()) as nat,
                        );
                        assert(before + (seq![view] + rest) =~= before.push(view) + rest);
                    }
                }
            },
            None => {},
        }
        i += 1;
    }
    assert(result.deep_view() + Seq::<LinkView>::empty() =~= result.deep_view());
    result
}

/// The text and the links of a page.
pub fn extract_page(page: &BrowserPage) -> (result: PageContent)
    ensures
        result.content@ == page_text(page.deep_view()),
        result.links.deep_view() == links_from(
            page.links.deep_view(),
            0,
            Set::empty(),
            MAX_LINKS as nat,
        ),
{
    let ghost all = page.blocks.deep_view();
    let mut blocks: Vec<String> = Vec::new();
    let mut i: usize = 0;
    assert(blocks.deep_view() =~= blocks_text(all.take(0)));
    while i < page.blocks.len()
        invariant
            all == page.blocks.deep_view(),
            i <= page.blocks@.len(),
            blocks.deep_view() == blocks_text(all.take(i as int)),
        decreases page.blocks@.len() - i,
    {
        let ghost before = blocks.deep_view();
        proof {
            assert(all.take(i + 1).drop_last() =~= all.take(i as int));
            assert(all.take(i + 1).last() == page.blocks@[i as int].deep_view());
        }
        match format_block(&page.blocks[i]) {
            Some(said) => {
                let ghost view = said@;
                blocks.push(said);
                assert(blocks.deep_view() =~= before.push(view));
            },
            None => {},
        }
        i += 1;
    }
    assert(all.take(i as int) =~= all);
    let content = if blocks.len() == 0 {
        text::trimmed(page.visible_text.as_str())
    } else {
        text::join_all(&blocks, "\n\n")
    };
    PageContent { content, links: page_links(&page.links) }
}

/// No more links are told than may be, no address twice, and none without text.
pub proof fn links_law(links: Seq<LinkView>, i: int, seen: Set<Seq<char>>, left: nat)
    requires
        0 <= i,
    ensures
        ({
            let told = links_from(links, i, seen, left);
            &&& told.len() <= left
            &&& forall|k: int| 0 <= k < told.len() ==> (#[trigger] told[k]).text.len() > 0
            &&& forall|k: int| 0 <= k < told.len() ==> !seen.contains((#[trigger] told[k]).url)
            &&& forall|a: int, b: int|
                0 <= a < b < told.len() ==> (#[trigger] told[a]).url != (#[trigger] told[b]).url
        }),
    decreases links.len() - i,
{
    if i < links.len() && left > 0 {
        match told_link(links[i]) {
            Some(link) if !seen.contains(link.url) => {
                links_law(links, i + 1, seen.insert(link.url), (left - 1) as nat);
                let rest = links_from(links, i + 1, seen.insert(link.url), (left - 1) as nat);
                let told = links_from(links, i, seen, left);
                assert forall|k: int| 1 <= k < told.len() implies #[trigger] told[k] == rest[k
                    - 1] by {}
            },
            _ => {
                links_law(links, i + 1, seen, left);
            },
        }
    }
}

/// The address to open, or what is wrong with it.
pub fn check_address(address: &str) -> (result: Result<String, String>)
    ensures
        match read_url(trim(address@)) {
            Some(url) => if is_web(url) {
                result is Ok && result->Ok_0@ == url.address
            } else {
                result is Err && result->Err_0@ == "web_browser only supports HTTP(S) URLs"@
            },
            None => result is Err && result->Err_0@ == url_fault(trim(address@)),
        },
{
    match parse_url(text::trimmed(address).as_str()) {
        Ok(url) => if has_web_scheme(&url) {
            Ok(url.address)
        } else {
            Err("web_browser only supports HTTP(S) URLs".to_owned())
        },
        Err(error) => Err(error),
    }
}

pub open spec fn link_json(link: LinkView) -> JsonView {
    JsonView::Object(
        seq![("text"@, JsonView::Text(link.text)), ("url"@, JsonView::Text(link.url))],
    )
}

/// What is told of a page.
pub open spec fn page_json(page: PageView) -> JsonView {
    JsonView::Object(
        seq![
            ("url"@, JsonView::Text(page.url)),
            ("title"@, JsonView::Text(page.title)),
            ("content"@, JsonView::Text(page_text(page))),
            (
                "links"@,
                JsonView::Array(
                    links_from(page.links, 0, Set::empty(), MAX_LINKS as nat).map_values(
                        |l: LinkView| link_json(l),
                    ),
                ),
            ),
        ],
    )
}

/// What is told of a page.
pub fn page_output(page: &BrowserPage) -> (output: String)
    ensures
        output@ == written_pretty(page_json(page.deep_view())),
{
    let extracted = extract_page(page);
    let ghost links = extracted.links.deep_view();
    let ghost goal = links.map_values(|l: LinkView| link_json(l));
    let mut items: Vec<Json> = Vec::new();
    let mut i: usize = 0;
    while i < extracted.links.len()
        invariant
            links == extracted.links.deep_view(),
            goal == links.map_values(|l: LinkView| link_json(l)),
            i <= extracted.links@.len(),
            items@.len() == i,
            forall|k: int| 0 <= k < i ==> (#[trigger] items@[k]).deep_view() == goal[k],
        decreases extracted.links@.len() - i,
    {
        let link = &extracted.links[i];
        let mut entries: Vec<(String, Json)> = Vec::new();
        entries.push(("text".to_owned(), Json::text(link.text.as_str())));
        entries.push(("url".to_owned(), Json::text(link.url.as_str())));
        proof {
            json::json_view_object(entries);
            assert(links[i as int] == link.deep_view());
            assert(entries.deep_view() =~= link_json(link.deep_view())->Object_0);
        }
        items.push(Json::Object(entries));
        i += 1;
    }
    proof {
        json::json_view_array(items);
        assert(items.deep_view() =~= goal);
    }
    let list = Json::Array(items);
    let mut entries: Vec<(String, Json)> = Vec::new();
    entries.push(("url".to_owned(), Json::text(page.url.as_str())));
    entries.push(("title".to_owned(), Json::text(page.title.as_str())));
    entries.push(("content".to_owned(), Json::Text(extracted.content)));
    entries.push(("links".to_owned(), list));
    proof {
        json::json_view_object(entries);
        assert(entries.deep_view() =~= page_json(page.deep_view())->Object_0);
    }
    json::write_pretty(&Json::Object(entries))
}

} // verus!
