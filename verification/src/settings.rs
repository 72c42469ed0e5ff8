//! The immutable configuration record the template merger consumes.

use vstd::prelude::*;

verus! {

/// Site-wide configuration for merging a rendered fragment into a page
/// template. The collaborator that loads configuration fills it once and
/// passes it by reference; nothing in this crate mutates it.
#[derive(Clone, Debug)]
pub struct Settings {
    /// Text of the generic page template.
    pub template: String,
    /// Text of the landing-page template, when the site has a distinct
    /// one; `None` disables the feature and the generic template is used
    /// for every page.
    pub templateindex: Option<String>,
    /// Base URL of the site, prefixed onto every canonical URL.
    pub webroot: String,
    /// Literal token in a template replaced by the page title.
    pub titletag: String,
    /// Literal token in a template replaced by the raw (unsplit) tags
    /// string.
    pub keywordstag: String,
    /// Literal token in a template replaced by the description.
    pub descriptiontag: String,
    /// Literal token in a template replaced by the rendered fragment.
    pub contenttag: String,
    /// Whether a non-blog page gets the merge-time date as its publish
    /// date; when false its publish date is left empty.
    pub derive_date_for_non_blog: bool,
}

} // verus!
