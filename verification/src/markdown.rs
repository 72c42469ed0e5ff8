//! Markdown rendering: the extended markdown dialect (tables,
//! strikethrough, footnotes) turned into an HTML fragment, normalized by
//! removing the renderer's table-alignment attributes.

use vstd::prelude::*;
use crate::text::{chars_to_string, replace_all, spec_replace_all, str_to_chars};

verus! {

/// The HTML that the extended markdown dialect (tables, strikethrough,
/// footnotes) renders for `md`. The conversion is pure text to text, so
/// the result is a function of the input alone; it is not further
/// specified here.
pub uninterp spec fn md_html(md: Seq<char>) -> Seq<char>;

/// Relies on pulldown_cmark's `Parser::new_ext` and `html::push_html`,
/// with tables, strikethrough and footnotes enabled: a pure text-to-text
/// conversion whose result depends on the input text alone.
#[verifier::external_body]
fn render_markdown_ext(md: &str) -> (r: String)
    ensures
        r@ == md_html(md@),
{
    let mut options = pulldown_cmark::Options::empty();
    options.insert(pulldown_cmark::Options::ENABLE_STRIKETHROUGH);
    options.insert(pulldown_cmark::Options::ENABLE_FOOTNOTES);
    options.insert(pulldown_cmark::Options::ENABLE_TABLES);
    let parser = pulldown_cmark::Parser::new_ext(md, options);
    let mut out = String::new();
    pulldown_cmark::html::push_html(&mut out, parser);
    out
}

/// The fragment stored for a source text: the dialect's HTML with every
/// ` align="left"` attribute the renderer may have emitted removed, so
/// renderer-specific table markup does not conflict with site CSS.
pub open spec fn spec_fragment(md: Seq<char>) -> Seq<char> {
    spec_replace_all(md_html(md), " align=\"left\""@, Seq::empty())
}

/// Renders markdown text to the normalized HTML fragment.
pub fn render_fragment(md: &str) -> (r: String)
    ensures
        r@ == spec_fragment(md@),
{
    let raw = render_markdown_ext(md);
    let chars = str_to_chars(raw.as_str());
    let pattern = str_to_chars(" align=\"left\"");
    proof {
        reveal_strlit(" align=\"left\"");
        assert(pattern@.len() > 0);
    }
    let empty: Vec<char> = Vec::new();
    let stripped = replace_all(chars.as_slice(), pattern.as_slice(), empty.as_slice());
    chars_to_string(stripped.as_slice())
}

} // verus!
