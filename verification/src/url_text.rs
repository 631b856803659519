//! URLs, read by the url crate.

use vstd::prelude::*;

verus! {

/// The parts of a URL that the rules look at.
pub ghost struct UrlView {
    pub scheme: Seq<char>,
    pub host: Option<Seq<char>>,
    pub username: Seq<char>,
    pub password: Option<Seq<char>>,
    pub query: Option<Seq<char>>,
}

/// The parts of a URL that the rules look at.
#[derive(Debug, PartialEq, Eq)]
pub struct UrlParts {
    pub scheme: String,
    pub host: Option<String>,
    pub username: String,
    pub password: Option<String>,
    pub query: Option<String>,
}

/// The characters of an optional string.
pub open spec fn opt_view(value: Option<String>) -> Option<Seq<char>> {
    match value {
        Some(t) => Some(t@),
        None => None,
    }
}

impl View for UrlParts {
    type V = UrlView;

    open spec fn view(&self) -> UrlView {
        UrlView {
            scheme: self.scheme@,
            host: opt_view(self.host),
            username: self.username@,
            password: opt_view(self.password),
            query: opt_view(self.query),
        }
    }
}

/// The characters of name and value pairs.
pub open spec fn pair_views(pairs: Seq<(String, String)>) -> Seq<(Seq<char>, Seq<char>)> {
    Seq::new(pairs.len(), |i: int| (pairs[i].0@, pairs[i].1@))
}

/// The room that pairs take in a query.
pub open spec fn query_len(pairs: Seq<(Seq<char>, Seq<char>)>) -> nat
    decreases pairs.len(),
{
    if pairs.len() == 0 {
        0
    } else {
        query_len(pairs.drop_last()) + pairs.last().0.len() + pairs.last().1.len() + 1
    }
}

/// What the url crate reads from a text: the parts, or its error message.
pub uninterp spec fn url_parse(text: Seq<char>) -> Result<UrlView, Seq<char>>;

/// The URL of a text with pairs added to its query, as the url crate writes it.
pub uninterp spec fn url_with_pairs(
    text: Seq<char>,
    pairs: Seq<(Seq<char>, Seq<char>)>,
) -> Seq<char>;

/// `url::Url::parse`, a function of the text alone, with `scheme`, `host_str`, `username`,
/// `password` and `query` of the URL that it gives.
#[verifier::external_body]
pub(crate) fn parse_url(text: &str) -> (out: Result<UrlParts, String>)
    ensures
        match out {
            Ok(parts) => url_parse(text@) == Ok::<UrlView, Seq<char>>(parts@),
            Err(message) => url_parse(text@) == Err::<UrlView, Seq<char>>(message@),
        },
{
    let url = url::Url::parse(text).map_err(|error| error.to_string())?;
    Ok(UrlParts {
        scheme: url.scheme().to_owned(),
        host: url.host_str().map(|host| host.to_owned()),
        username: url.username().to_owned(),
        password: url.password().map(|password| password.to_owned()),
        query: url.query().map(|query| query.to_owned()),
    })
}

/// The most bytes that an address takes with pairs in its query. A character of a query, path or
/// fragment takes at most four bytes in UTF-8, and each of them three where it is escaped; a
/// character of a host takes more, since it may be mapped to several, each of them encoded.
pub open spec fn url_room(address_len: nat, pairs: Seq<(Seq<char>, Seq<char>)>) -> nat {
    256 * address_len + 12 * query_len(pairs)
}

/// `url::form_urlencoded::Serializer::extend_pairs` on the `query_pairs_mut` of the URL that
/// `url::Url::parse` reads, and the text of that URL then. Both ends of a query must be measured in
/// 32 bits, or the call panics; no address and pairs of this size take that many bytes.
#[verifier::external_body]
pub(crate) fn extend_url(text: &str, pairs: &Vec<(String, String)>) -> (out: Result<String, String>)
    requires
        url_room(text@.len(), pair_views(pairs@)) < 0x1_0000_0000,
    ensures
        match out {
            Ok(url) => url_parse(text@) is Ok && url@ == url_with_pairs(
                text@,
                pair_views(pairs@),
            ),
            Err(message) => url_parse(text@) == Err::<UrlView, Seq<char>>(message@),
        },
{
    let mut url = url::Url::parse(text).map_err(|error| error.to_string())?;
    url.query_pairs_mut().extend_pairs(pairs);
    Ok(url.into())
}

} // verus!
