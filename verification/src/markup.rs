//! Trusted boundary to the HTML and URL machinery. Each wrapper turns one
//! fixed lookup of the `scraper` or `url` crate into a function from plain
//! strings to plain values; the uninterpreted names below stand for their
//! results, which depend on the arguments alone (HTML parsing and CSS
//! selection are deterministic). An invalid selector group selects nothing.

use vstd::prelude::*;

verus! {

/// The serialized markup of every element of `doc` matching `sel`, in
/// document order.
pub uninterp spec fn selected_outer(doc: Seq<char>, sel: Seq<char>) -> Seq<Seq<char>>;

/// The concatenated text of every element of `doc` matching `sel`, in
/// document order.
pub uninterp spec fn selected_texts(doc: Seq<char>, sel: Seq<char>) -> Seq<Seq<char>>;

/// For every element of `doc` matching `sel`, in document order: the value
/// of its attribute `attr` (if present) and its concatenated text.
pub uninterp spec fn selected_links(doc: Seq<char>, sel: Seq<char>, attr: Seq<char>) -> Seq<
    (Option<Seq<char>>, Seq<char>),
>;

/// The text nodes of the fragment `frag`, in document order.
pub uninterp spec fn text_parts_of(frag: Seq<char>) -> Seq<Seq<char>>;

/// The value of attribute `attr` on the first element of the fragment
/// `frag`, if both exist.
pub uninterp spec fn root_attr_of(frag: Seq<char>, attr: Seq<char>) -> Option<Seq<char>>;

/// The decoded query pairs of the absolute URL `url`, in order, or nothing
/// when `url` does not parse as a URL.
pub uninterp spec fn query_pairs_of(url: Seq<char>) -> Option<Seq<(Seq<char>, Seq<char>)>>;

/// Relies on `scraper::Html::parse_document`, `scraper::Selector::parse`
/// and `scraper::ElementRef::html`: serializes each element matching the
/// selector, in document order; an unparsable selector matches nothing.
#[verifier::external_body]
pub(crate) fn select_outer(doc: &str, sel: &str) -> (r: Vec<String>)
    ensures
        r.deep_view() == selected_outer(doc@, sel@),
{
    match scraper::Selector::parse(sel) {
        Ok(s) => {
            let html = scraper::Html::parse_document(doc);
            html.select(&s).map(|e| e.html()).collect()
        },
        Err(_) => Vec::new(),
    }
}

/// Relies on `scraper::Html::parse_document`, `scraper::Selector::parse`
/// and `scraper::ElementRef::text`: the concatenated text of each element
/// matching the selector, in document order; an unparsable selector
/// matches nothing.
#[verifier::external_body]
pub(crate) fn select_texts(doc: &str, sel: &str) -> (r: Vec<String>)
    ensures
        r.deep_view() == selected_texts(doc@, sel@),
{
    match scraper::Selector::parse(sel) {
        Ok(s) => {
            let html = scraper::Html::parse_document(doc);
            html.select(&s).map(|e| e.text().collect::<String>()).collect()
        },
        Err(_) => Vec::new(),
    }
}

/// Relies on `scraper::Html::parse_document`, `scraper::Selector::parse`,
/// `scraper::ElementRef::attr` and `scraper::ElementRef::text`: the named
/// attribute and the concatenated text of each element matching the
/// selector, in document order; an unparsable selector matches nothing.
#[verifier::external_body]
pub(crate) fn select_links(doc: &str, sel: &str, attr: &str) -> (r: Vec<(Option<String>, String)>)
    ensures
        r.deep_view() == selected_links(doc@, sel@, attr@),
{
    match scraper::Selector::parse(sel) {
        Ok(s) => {
            let html = scraper::Html::parse_document(doc);
            html.select(&s).map(
                |e| (e.attr(attr).map(String::from), e.text().collect::<String>()),
            ).collect()
        },
        Err(_) => Vec::new(),
    }
}

/// Relies on `scraper::Html::parse_fragment`, `scraper::Html::root_element`
/// and `scraper::ElementRef::text`: the text nodes of the fragment, in
/// document order.
#[verifier::external_body]
pub(crate) fn text_parts(frag: &str) -> (r: Vec<String>)
    ensures
        r.deep_view() == text_parts_of(frag@),
{
    let html = scraper::Html::parse_fragment(frag);
    html.root_element().text().map(String::from).collect()
}

/// Relies on `scraper::Html::parse_fragment`,
/// `scraper::ElementRef::child_elements` and `scraper::ElementRef::attr`:
/// the named attribute of the fragment's first element, if present.
#[verifier::external_body]
pub(crate) fn root_attr(frag: &str, attr: &str) -> (r: Option<String>)
    ensures
        r.deep_view() == root_attr_of(frag@, attr@),
{
    let html = scraper::Html::parse_fragment(frag);
    let first = html.root_element().child_elements().next();
    first.and_then(|e| e.attr(attr)).map(String::from)
}

/// Relies on `url::Url::parse` and `url::Url::query_pairs`: the decoded
/// query pairs of an absolute URL, in order, or `None` when the string is
/// not a URL.
#[verifier::external_body]
pub(crate) fn query_pairs(url: &str) -> (r: Option<Vec<(String, String)>>)
    ensures
        r.deep_view() == query_pairs_of(url@),
{
    match url::Url::parse(url) {
        Ok(u) => Some(u.query_pairs().map(|p| (p.0.to_string(), p.1.to_string())).collect()),
        Err(_) => None,
    }
}

} // verus!
