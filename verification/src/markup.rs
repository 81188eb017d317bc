//! What the library has from the HTML parser and the regular-expression
//! engine: elements picked by a selector, and the first match of a pattern.
//!
//! Nothing in this file is proved. The parser and the engine do the work; what
//! they return is named, and the functions of the library that build on it say
//! what they make of the named results.

use regex::Regex;
use scraper::Html;
use scraper::Selector;
use vstd::prelude::*;

verus! {

/// An element of a parsed page, reduced to what the scraper reads of it.
#[derive(Debug)]
pub struct Element {
    /// The text nodes below the element, in document order.
    pub texts: Vec<String>,
    /// The element as markup, its own tags included.
    pub html: String,
    /// The children of the element as markup.
    pub inner_html: String,
}

/// What an [`Element`] holds, as plain text.
pub struct ElementView {
    pub texts: Seq<Seq<char>>,
    pub html: Seq<char>,
    pub inner_html: Seq<char>,
}

impl View for Element {
    type V = ElementView;

    open spec fn view(&self) -> ElementView {
        ElementView {
            texts: self.texts.deep_view(),
            html: self.html@,
            inner_html: self.inner_html@,
        }
    }
}

impl DeepView for Element {
    type V = ElementView;

    open spec fn deep_view(&self) -> ElementView {
        self@
    }
}

/// The elements that `selector` picks from `document` read as a whole HTML
/// document, in the order in which the parser hands them out; `None` where
/// `selector` is no selector group that the parser accepts.
pub uninterp spec fn document_selection(document: Seq<char>, selector: Seq<char>) -> Option<
    Seq<ElementView>,
>;

/// The elements that `selector` picks from `fragment` read as a piece of HTML
/// inside a `body`, in the order in which the parser hands them out; `None`
/// where `selector` is no selector group that the parser accepts.
pub uninterp spec fn fragment_selection(fragment: Seq<char>, selector: Seq<char>) -> Option<
    Seq<ElementView>,
>;

/// The leftmost match of `pattern` in `haystack`, `Some(None)` where there is
/// no match; `None` where `pattern` is none that the engine accepts.
pub uninterp spec fn first_match(pattern: Seq<char>, haystack: Seq<char>) -> Option<
    Option<Seq<char>>,
>;

/// Parses `selector` with `scraper::Selector::parse` and `document` with
/// `scraper::Html::parse_document`, walks `Html::select`, and copies from each
/// element what `ElementRef::text`, `ElementRef::html` and
/// `ElementRef::inner_html` give. The contract only names the outcome.
#[verifier::external_body]
pub(crate) fn select_in_document(document: &str, selector: &str) -> (elements: Option<
    Vec<Element>,
>)
    ensures
        elements.deep_view() == document_selection(document@, selector@),
{
    let selector = Selector::parse(selector).ok()?;
    let tree = Html::parse_document(document);
    Some(
        tree.select(&selector).map(
            |element|
                Element {
                    texts: element.text().map(String::from).collect(),
                    html: element.html(),
                    inner_html: element.inner_html(),
                },
        ).collect(),
    )
}

/// As [`select_in_document`], with `scraper::Html::parse_fragment` in place of
/// `parse_document`. The contract only names the outcome.
#[verifier::external_body]
pub(crate) fn select_in_fragment(fragment: &str, selector: &str) -> (elements: Option<
    Vec<Element>,
>)
    ensures
        elements.deep_view() == fragment_selection(fragment@, selector@),
{
    let selector = Selector::parse(selector).ok()?;
    let tree = Html::parse_fragment(fragment);
    Some(
        tree.select(&selector).map(
            |element|
                Element {
                    texts: element.text().map(String::from).collect(),
                    html: element.html(),
                    inner_html: element.inner_html(),
                },
        ).collect(),
    )
}

/// Compiles `pattern` with `regex::Regex::new` and copies what
/// `Regex::find` gives on `haystack`, which is the leftmost match. The
/// contract only names the outcome.
#[verifier::external_body]
pub(crate) fn find_first(pattern: &str, haystack: &str) -> (found: Option<Option<String>>)
    ensures
        found.deep_view() == first_match(pattern@, haystack@),
{
    let regex = Regex::new(pattern).ok()?;
    Some(regex.find(haystack).map(|found| found.as_str().to_string()))
}

} // verus!
