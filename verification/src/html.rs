//! Reading values out of HTML pages with `scraper`.
use vstd::prelude::*;
use scraper::{Html, Selector};

verus! {

/// What `scraper` yields for the attribute `attr` of the first element of the
/// HTML document `page` that the CSS selector `selector` matches (`None` when
/// the selector does not parse, no element matches, or it lacks `attr`).
pub uninterp spec fn html_first_attr(page: Seq<char>, selector: Seq<char>, attr: Seq<char>) -> Option<Seq<char>>;

/// The attribute `attr` of each element of `page` that `selector` matches,
/// in document order (`None` for an element without it); empty when the
/// selector does not parse.
pub uninterp spec fn html_all_attrs(page: Seq<char>, selector: Seq<char>, attr: Seq<char>) -> Seq<Option<Seq<char>>>;

/// The text nodes below the first element of `page` that `selector` matches,
/// concatenated in document order.
pub uninterp spec fn html_first_text(page: Seq<char>, selector: Seq<char>) -> Option<Seq<char>>;

/// Parses `page` with `Html::parse_document` and `selector` with
/// `Selector::parse`, takes the first match of `Html::select`, and reads its
/// attribute with `ElementRef::attr`. The contract only names the result.
#[verifier::external_body]
pub fn first_attr(page: &str, selector: &str, attr: &str) -> (res: Option<String>)
    ensures
        res.deep_view() == html_first_attr(page@, selector@, attr@),
{
    let selector = match Selector::parse(selector) {
        Ok(s) => s,
        Err(_) => return None,
    };
    let document = Html::parse_document(page);
    match document.select(&selector).next() {
        Some(element) => element.attr(attr).map(String::from),
        None => None,
    }
}

/// Like `first_attr`, for every match of `Html::select` in order.
#[verifier::external_body]
pub fn all_attrs(page: &str, selector: &str, attr: &str) -> (res: Vec<Option<String>>)
    ensures
        res.deep_view() == html_all_attrs(page@, selector@, attr@),
{
    let selector = match Selector::parse(selector) {
        Ok(s) => s,
        Err(_) => return Vec::new(),
    };
    let document = Html::parse_document(page);
    document.select(&selector).map(|element| element.attr(attr).map(String::from)).collect()
}

/// The first match of `Html::select`, its `ElementRef::text` pieces collected
/// into one `String`.
#[verifier::external_body]
pub fn first_text(page: &str, selector: &str) -> (res: Option<String>)
    ensures
        res.deep_view() == html_first_text(page@, selector@),
{
    let selector = match Selector::parse(selector) {
        Ok(s) => s,
        Err(_) => return None,
    };
    let document = Html::parse_document(page);
    match document.select(&selector).next() {
        Some(element) => Some(element.text().collect::<String>()),
        None => None,
    }
}

} // verus!
