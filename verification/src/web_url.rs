//! Addresses on the web, as the `url` crate reads them.
use crate::text;
use vstd::prelude::*;
use vstd::string::*;

verus! {

/// The parts of an address that are read.
#[derive(Debug, PartialEq)]
pub struct UrlParts {
    /// The address as it is written.
    pub address: String,
    pub scheme: String,
    pub host: Option<String>,
    /// The pairs of the query.
    pub pairs: Vec<(String, String)>,
    /// The address without its fragment.
    pub plain: String,
    /// Whether the address has a query.
    pub has_query: bool,
    /// Whether the address has a fragment.
    pub has_fragment: bool,
}

pub struct UrlView {
    pub address: Seq<char>,
    pub scheme: Seq<char>,
    pub host: Option<Seq<char>>,
    pub pairs: Seq<(Seq<char>, Seq<char>)>,
    pub plain: Seq<char>,
    pub has_query: bool,
    pub has_fragment: bool,
}

impl DeepView for UrlParts {
    type V = UrlView;

    open spec fn deep_view(&self) -> UrlView {
        UrlView {
            address: self.address@,
            scheme: self.scheme@,
            host: self.host.deep_view(),
            pairs: self.pairs.deep_view(),
            plain: self.plain@,
            has_query: self.has_query,
            has_fragment: self.has_fragment,
        }
    }
}

/// The parts of the address that `url::Url::parse` reads, or what its error says.
pub uninterp spec fn url_of(address: Seq<char>) -> Result<UrlView, Seq<char>>;

/// The parts of an address; `None` where a text is none.
pub open spec fn read_url(address: Seq<char>) -> Option<UrlView> {
    match url_of(address) {
        Ok(url) => Some(url),
        Err(_) => None,
    }
}

/// What is wrong with a text that is no address.
pub open spec fn url_fault(address: Seq<char>) -> Seq<char> {
    match url_of(address) {
        Ok(_) => Seq::empty(),
        Err(fault) => fault,
    }
}

/// The address `base` with pairs behind its query, as `url::Url` writes it; `None`
/// where `base` is no address.
pub uninterp spec fn with_pairs(base: Seq<char>, pairs: Seq<(Seq<char>, Seq<char>)>) -> Option<
    Seq<char>,
>;

/// `url::Url::parse`, and what `as_str`, `scheme`, `host_str`, `query`, `fragment`,
/// `query_pairs` and `set_fragment` say of the address, or the text of the error.
#[verifier::external_body]
pub(crate) fn parse_url(address: &str) -> (result: Result<UrlParts, String>)
    ensures
        match result {
            Ok(url) => url_of(address@) == Ok::<UrlView, Seq<char>>(url.deep_view()),
            Err(fault) => url_of(address@) == Err::<UrlView, Seq<char>>(fault@),
        },
{
    let url = url::Url::parse(address).map_err(|error| error.to_string())?;
    let mut plain = url.clone();
    plain.set_fragment(None);
    Ok(UrlParts {
        address: url.as_str().to_owned(),
        scheme: url.scheme().to_owned(),
        host: url.host_str().map(str::to_owned),
        pairs: url.query_pairs().into_owned().collect(),
        plain: plain.into(),
        has_query: url.query().is_some(),
        has_fragment: url.fragment().is_some(),
    })
}

/// A small letter of the alphabet.
pub open spec fn is_small_letter(c: char) -> bool {
    'a' <= c <= 'z'
}

/// A host of small letters, with single dots between them.
pub open spec fn is_lettered_host(host: Seq<char>) -> bool {
    &&& host.len() > 0
    &&& is_small_letter(host[0])
    &&& is_small_letter(host.last())
    &&& forall|i: int| 0 <= i < host.len() ==> is_small_letter(#[trigger] host[i]) || host[i] == '.'
    &&& forall|i: int|
        0 <= i && i + 1 < host.len() && #[trigger] host[i] == '.' ==> is_small_letter(host[i + 1])
}

/// The address of a page, of a plain form that is always one: a host of small letters,
/// and small letters behind the slash.
pub open spec fn is_page_of(base: Seq<char>, host: Seq<char>, page: Seq<char>) -> bool {
    &&& base == "https://"@ + host + "/"@ + page
    &&& is_lettered_host(host)
    &&& forall|i: int| 0 <= i < page.len() ==> is_small_letter(#[trigger] page[i])
}

/// `extend_pairs` on the `query_pairs_mut` of an `url::Url`, and the address then.
/// `url::Url::parse` reads an address whose host and path are of small letters. A
/// `url::Url` counts its places with 32 bits, so long addresses are left out, and those
/// whose fragment would be moved.
#[verifier::external_body]
pub(crate) fn extend_pairs(base: &str, pairs: &Vec<(String, String)>) -> (result: Option<String>)
    requires
        base@.len() <= 0x10_0000,
        !base@.contains('#'),
    ensures
        result.deep_view() == with_pairs(base@, pairs.deep_view()),
        (exists|host: Seq<char>, page: Seq<char>| is_page_of(base@, host, page)) ==> result is Some,
{
    let mut url = url::Url::parse(base).ok()?;
    url.query_pairs_mut().extend_pairs(pairs);
    Some(url.into())
}

/// An address of the web.
pub open spec fn is_web(url: UrlView) -> bool {
    url.scheme == "http"@ || url.scheme == "https"@
}

/// Whether a text is an address of the web.
pub open spec fn is_web_address(address: Seq<char>) -> bool {
    match read_url(address) {
        Some(url) => is_web(url),
        None => false,
    }
}

/// Whether an address is one of the web.
pub fn has_web_scheme(url: &UrlParts) -> (result: bool)
    ensures
        result == is_web(url.deep_view()),
{
    text::same(url.scheme.as_str(), "http") || text::same(url.scheme.as_str(), "https")
}

/// Whether a text is an address of the web.
pub fn is_web_url(address: &str) -> (result: bool)
    ensures
        result == is_web_address(address@),
{
    match parse_url(address) {
        Ok(url) => has_web_scheme(&url),
        Err(_) => false,
    }
}

/// The value of the first pair with `key`.
pub open spec fn pair_value(pairs: Seq<(Seq<char>, Seq<char>)>, key: Seq<char>) -> Option<
    Seq<char>,
>
    decreases pairs.len(),
{
    if pairs.len() == 0 {
        None
    } else if pairs[0].0 == key {
        Some(pairs[0].1)
    } else {
        pair_value(pairs.skip(1), key)
    }
}

/// The value of the first pair with `key`.
pub fn find_pair<'a>(pairs: &'a Vec<(String, String)>, key: &str) -> (result: Option<&'a String>)
    ensures
        result.deep_view() == pair_value(pairs.deep_view(), key@),
{
    let ghost all = pairs.deep_view();
    let mut i: usize = 0;
    assert(all.skip(0) =~= all);
    while i < pairs.len()
        invariant
            all == pairs.deep_view(),
            i <= pairs@.len(),
            pair_value(all, key@) == pair_value(all.skip(i as int), key@),
        decreases pairs@.len() - i,
    {
        proof {
            assert(all.skip(i as int)[0] == pairs@[i as int].deep_view());
            assert(all.skip(i as int).skip(1) =~= all.skip(i + 1));
        }
        if text::same(pairs[i].0.as_str(), key) {
            return Some(&pairs[i].1);
        }
        i += 1;
    }
    None
}

} // verus!
