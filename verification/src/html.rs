//! Trusted access to the HTML parser.
//!
//! Parsing HTML is delegated to the `scraper` crate. What each query
//! returns is a function of the document text alone, so each result is
//! given a name here, and the extractor's contracts speak of those names.

use vstd::prelude::*;

verus! {

/// The text content of the first heading-level-1 element of the document
/// that `html` parses to, in document order; `None` if there is none.
pub uninterp spec fn h1_text_of(html: Seq<char>) -> Option<Seq<char>>;

/// The text content of the first `article` element of the document that
/// `html` parses to, in document order; `None` if there is none.
pub uninterp spec fn article_text_of(html: Seq<char>) -> Option<Seq<char>>;

/// The `href` attribute values of the anchor elements of the document that
/// `html` parses to, in document order.
pub uninterp spec fn hrefs_of(html: Seq<char>) -> Seq<Seq<char>>;

/// Relies on scraper's `Html::parse_document`, `Html::select` and
/// `ElementRef::text`: the concatenated text of the first `h1` element
/// depends on the document text alone. The `h1` selector is a fixed valid
/// selector, so `Selector::parse` cannot fail on it.
#[verifier::external_body]
pub(crate) fn first_h1_text(html: &str) -> (r: Option<String>)
    ensures
        r.deep_view() == h1_text_of(html@),
{
    let document = scraper::Html::parse_document(html);
    let selector = scraper::Selector::parse("h1").unwrap();
    document.select(&selector).next().map(|el| el.text().collect::<String>())
}

/// Relies on scraper's `Html::parse_document`, `Html::select` and
/// `ElementRef::text`: the concatenated text of the first `article`
/// element depends on the document text alone. The `article` selector is a
/// fixed valid selector, so `Selector::parse` cannot fail on it.
#[verifier::external_body]
pub(crate) fn first_article_text(html: &str) -> (r: Option<String>)
    ensures
        r.deep_view() == article_text_of(html@),
{
    let document = scraper::Html::parse_document(html);
    let selector = scraper::Selector::parse("article").unwrap();
    document.select(&selector).next().map(|el| el.text().collect::<String>())
}

/// Relies on scraper's `Html::parse_document`, `Html::select` and
/// `ElementRef::attr`: the anchors' `href` values in document order depend
/// on the document text alone. The `a[href]` selector is a fixed valid
/// selector, so `Selector::parse` cannot fail on it.
#[verifier::external_body]
pub(crate) fn anchor_hrefs(html: &str) -> (r: Vec<String>)
    ensures
        r.deep_view() == hrefs_of(html@),
{
    let document = scraper::Html::parse_document(html);
    let selector = scraper::Selector::parse("a[href]").unwrap();
    document.select(&selector).filter_map(
        |el| el.attr("href").map(|href| href.to_string()),
    ).collect()
}

} // verus!
