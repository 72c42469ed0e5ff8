//! Marker-tag lookup in a rendered fragment, through an HTML parser.

use vstd::prelude::*;

verus! {

/// The inner HTML of the first element matching the tag-name selector
/// `tag` in the document parsed from `doc`; `None` when no such element
/// exists or when `tag` is not a valid selector. The lookup is a pure
/// function of the two strings; it is not further specified here.
pub uninterp spec fn first_inner_html(doc: Seq<char>, tag: Seq<char>) -> Option<Seq<char>>;

/// Relies on scraper's `Html::parse_document`, `Selector::parse`,
/// `Html::select` and `ElementRef::inner_html`: parses `doc` as an HTML
/// document and returns the inner HTML of the first element matching the
/// tag-name selector `tag`. The result depends on the two strings alone;
/// a selector that does not parse yields `None`, as does a document
/// without a matching element.
#[verifier::external_body]
pub(crate) fn select_first(doc: &str, tag: &str) -> (r: Option<String>)
    ensures
        r is Some <==> first_inner_html(doc@, tag@) is Some,
        r is Some ==> r->0@ == first_inner_html(doc@, tag@)->0,
{
    let parsed = scraper::Html::parse_document(doc);
    match scraper::Selector::parse(tag) {
        Ok(selector) => parsed.select(&selector).next().map(|e| e.inner_html()),
        Err(_) => None,
    }
}

} // verus!
