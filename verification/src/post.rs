//! The content unit and its two pipeline stages: markdown rendering and
//! template merging. A `Post` is created by the external directory
//! walker with its source path and output folder, filled by
//! `markdown_to_html`, merged by `mangle_template`, and finally written
//! out by the caller to `output_path()`.

use vstd::prelude::*;
use vstd::string::*;
use crate::markdown;
use crate::query::{first_inner_html, select_first};
use crate::settings::Settings;
use crate::text::{
    contains_chars, contains_seq, replace_first, spec_last_seg, spec_replace_first, spec_tags,
    chars_to_string, eq_chars, last_segment, split_tags_chars, str_to_chars,
};

verus! {

/// One content unit: a source document and everything derived from it
/// through the pipeline. `path` and `folder` identify the unit and never
/// change; the remaining fields are filled by the two pipeline stages.
#[derive(Debug)]
pub struct Post {
    /// Filesystem location of the markdown source.
    pub path: String,
    /// Directory where the rendered page is written.
    pub folder: String,
    /// The unmodified source text, captured during rendering.
    pub markdown: String,
    /// First the rendered fragment, then (after merging) the final page.
    pub html: String,
    /// Whether the unit is classified as a blog post.
    pub is_blog: bool,
    /// The extracted page title.
    pub title: String,
    /// The canonical URL of the page.
    pub url: String,
    /// The short slug of the page.
    pub vanity: String,
    /// The publish date string.
    pub pub_date: String,
    /// The extracted description.
    pub description: String,
    /// The tag list, order and duplicates preserved from the source.
    pub tags: Vec<String>,
}

/// Why merging failed. Every error is fatal for the unit; the caller
/// decides whether to abort the whole build.
#[derive(Clone, Debug, PartialEq, Eq)]
pub enum MergeError {
    /// A mandatory marker element is absent from the fragment; holds the
    /// marker's tag name.
    RequiredMarkerMissing { marker: String },
    /// A configured substitution token does not occur in the selected
    /// template text; holds the token.
    MarkerNotInTemplate { marker: String },
}

/// A unit is a blog post when the fragment has a blog-title marker or a
/// `<sub>` element.
pub open spec fn spec_is_blog(frag: Seq<char>) -> bool {
    first_inner_html(frag, "x-blog-title"@) is Some || first_inner_html(frag, "sub"@) is Some
}

/// A unit is the site's landing page when the fragment holds the literal
/// index marker.
pub open spec fn spec_is_index(frag: Seq<char>) -> bool {
    contains_seq(frag, "<x-index/>"@)
}

/// The page title: the blog-title marker's content when that marker is
/// present, the generic title marker's content otherwise; `None` when
/// both are absent.
pub open spec fn spec_title(frag: Seq<char>) -> Option<Seq<char>> {
    if first_inner_html(frag, "x-blog-title"@) is Some {
        first_inner_html(frag, "x-blog-title"@)
    } else {
        first_inner_html(frag, "x-title"@)
    }
}

/// The publish date: for a blog post the verbatim inner content of the
/// first `<sub>` element; for a non-blog page the merge-time date when
/// configured, empty otherwise.
pub open spec fn spec_pub_date(frag: Seq<char>, today: Seq<char>, derive_date: bool) -> Seq<
    char,
> {
    if spec_is_blog(frag) {
        first_inner_html(frag, "sub"@)->0
    } else if derive_date {
        today
    } else {
        Seq::empty()
    }
}

/// The description: the description marker's content when present; for a
/// blog post without one, the title; `None` for a non-blog page without
/// one (the marker is mandatory there).
pub open spec fn spec_description(frag: Seq<char>) -> Option<Seq<char>> {
    if first_inner_html(frag, "x-desc"@) is Some {
        first_inner_html(frag, "x-desc"@)
    } else if spec_is_blog(frag) {
        spec_title(frag)
    } else {
        None
    }
}

/// The first mandatory marker found missing, checked in the order title,
/// publish date, tags, description; `None` when every required marker is
/// present.
pub open spec fn spec_missing_marker(frag: Seq<char>) -> Option<Seq<char>> {
    if spec_title(frag) is None {
        Some("x-title"@)
    } else if spec_is_blog(frag) && first_inner_html(frag, "sub"@) is None {
        Some("sub"@)
    } else if first_inner_html(frag, "x-tags"@) is None {
        Some("x-tags"@)
    } else if spec_description(frag) is None {
        Some("x-desc"@)
    } else {
        None
    }
}

/// The short slug: `/` for the reserved root folder, otherwise the blog
/// path with the folder's last segment.
pub open spec fn spec_vanity(folder: Seq<char>) -> Seq<char> {
    if spec_last_seg(folder) == "public"@ {
        "/"@
    } else {
        "/blog/posts/"@ + spec_last_seg(folder)
    }
}

/// The canonical URL: the webroot followed by the short slug.
pub open spec fn spec_url(webroot: Seq<char>, folder: Seq<char>) -> Seq<char> {
    if spec_last_seg(folder) == "public"@ {
        webroot + "/"@
    } else {
        webroot + "/blog/posts/"@ + spec_last_seg(folder)
    }
}

/// The template text the unit is merged into: the index template for the
/// landing page when the site has one, the generic template otherwise.
pub open spec fn spec_template_text(s: Settings, frag: Seq<char>) -> Seq<char> {
    if spec_is_index(frag) && s.templateindex is Some {
        s.templateindex->0@
    } else {
        s.template@
    }
}

/// The selected template with the blog CSS class inserted into the
/// opening body tag, applied only for blog posts.
pub open spec fn spec_body_classed(t: Seq<char>, blog: bool) -> Seq<char> {
    if blog {
        spec_replace_first(t, "<body>"@, "<body class='blog'>"@)
    } else {
        t
    }
}

/// The merged page: four in-order first-occurrence substitutions of the
/// configured tokens by title, raw tags string, description and fragment.
/// A token absent from the intermediate text it is checked against is
/// fatal; the error holds that token.
pub open spec fn spec_merged_html(frag: Seq<char>, s: Settings) -> Result<Seq<char>, Seq<char>> {
    let t0 = spec_body_classed(spec_template_text(s, frag), spec_is_blog(frag));
    if !contains_seq(t0, s.titletag@) {
        Err(s.titletag@)
    } else {
        let t1 = spec_replace_first(t0, s.titletag@, spec_title(frag)->0);
        if !contains_seq(t1, s.keywordstag@) {
            Err(s.keywordstag@)
        } else {
            let t2 = spec_replace_first(t1, s.keywordstag@, first_inner_html(frag, "x-tags"@)->0);
            if !contains_seq(t2, s.descriptiontag@) {
                Err(s.descriptiontag@)
            } else {
                let t3 = spec_replace_first(t2, s.descriptiontag@, spec_description(frag)->0);
                if !contains_seq(t3, s.contenttag@) {
                    Err(s.contenttag@)
                } else {
                    Ok(spec_replace_first(t3, s.contenttag@, frag))
                }
            }
        }
    }
}

/// Everything merging promises, relating the unit before (`pre`) and
/// after (`post`) to the settings, the date string used for non-blog
/// pages, and the returned result. On failure the unit is unchanged and
/// the error names the missing marker or token.
pub open spec fn mangle_outcome(
    pre: Post,
    post: Post,
    s: Settings,
    today: Seq<char>,
    r: Result<(), MergeError>,
) -> bool {
    let frag = pre.html@;
    match r {
        Ok(()) => {
            &&& spec_missing_marker(frag) is None
            &&& spec_merged_html(frag, s) is Ok
            &&& post.path@ == pre.path@
            &&& post.folder@ == pre.folder@
            &&& post.markdown@ == pre.markdown@
            &&& post.is_blog == spec_is_blog(frag)
            &&& post.title@ == spec_title(frag)->0
            &&& post.pub_date@ == spec_pub_date(frag, today, s.derive_date_for_non_blog)
            &&& post.description@ == spec_description(frag)->0
            &&& post.tags@.len() == spec_tags(first_inner_html(frag, "x-tags"@)->0).len()
            &&& forall|i: int|
                0 <= i < post.tags@.len() ==> (#[trigger] post.tags@[i])@ == spec_tags(
                    first_inner_html(frag, "x-tags"@)->0,
                )[i]
            &&& post.vanity@ == spec_vanity(pre.folder@)
            &&& post.url@ == spec_url(s.webroot@, pre.folder@)
            &&& post.html@ == spec_merged_html(frag, s)->Ok_0
        },
        Err(e) => {
            &&& post == pre
            &&& match spec_missing_marker(frag) {
                Some(m) => e matches MergeError::RequiredMarkerMissing { marker } && marker@ == m,
                None => {
                    &&& spec_merged_html(frag, s) is Err
                    &&& e matches MergeError::MarkerNotInTemplate { marker } && marker@
                        == spec_merged_html(frag, s)->Err_0
                },
            }
        },
    }
}

/// Relies on chrono's `Local::now`, formatted as `%Y-%m-%d`: the current
/// local date. The value depends on the clock, so nothing is assumed of
/// it.
#[verifier::external_body]
fn local_date() -> String {
    chrono::Local::now().format("%Y-%m-%d").to_string()
}

impl Post {
    /// A fresh unit for a discovered source file: identity set, every
    /// derived field empty.
    pub fn new(path: String, folder: String) -> (p: Post)
        ensures
            p.path == path,
            p.folder == folder,
            p.markdown@ == Seq::<char>::empty(),
            p.html@ == Seq::<char>::empty(),
            !p.is_blog,
            p.title@ == Seq::<char>::empty(),
            p.url@ == Seq::<char>::empty(),
            p.vanity@ == Seq::<char>::empty(),
            p.pub_date@ == Seq::<char>::empty(),
            p.description@ == Seq::<char>::empty(),
            p.tags@.len() == 0,
    {
        Post {
            path,
            folder,
            markdown: String::new(),
            html: String::new(),
            is_blog: false,
            title: String::new(),
            url: String::new(),
            vanity: String::new(),
            pub_date: String::new(),
            description: String::new(),
            tags: Vec::new(),
        }
    }

    /// Renders the given source text: stores it verbatim as the unit's
    /// raw markdown and stores the normalized HTML fragment. The caller
    /// reads the file; reading is not this crate's concern.
    pub fn markdown_to_html(&mut self, contents: &str)
        ensures
            final(self).markdown@ == contents@,
            final(self).html@ == markdown::spec_fragment(contents@),
            final(self).path == old(self).path,
            final(self).folder == old(self).folder,
            final(self).is_blog == old(self).is_blog,
            final(self).title == old(self).title,
            final(self).url == old(self).url,
            final(self).vanity == old(self).vanity,
            final(self).pub_date == old(self).pub_date,
            final(self).description == old(self).description,
            final(self).tags == old(self).tags,
    {
        self.markdown = String::from_str(contents);
        self.html = markdown::render_fragment(contents);
    }

    /// The path of the emitted page: `index.html` under the unit's
    /// output folder.
    pub fn output_path(&self) -> (r: String)
        ensures
            r@ == self.folder@ + "/index.html"@,
    {
        self.folder.clone().concat("/index.html")
    }

    /// Merges the unit's fragment into the configured template, using
    /// `today` as the merge-time date for non-blog pages. Classifies the
    /// unit, extracts title, publish date, tags and description, computes
    /// the canonical URL and slug, and overwrites the unit's HTML with
    /// the merged page. On failure the unit is unchanged.
    pub fn mangle_template_with(&mut self, settings: &Settings, today: &str) -> (r: Result<
        (),
        MergeError,
    >)
        ensures
            mangle_outcome(*old(self), *final(self), *settings, today@, r),
    {
        let ghost frag_view = self.html@;
        let frag = self.html.clone();
        let blog_title = select_first(frag.as_str(), "x-blog-title");
        let sub = select_first(frag.as_str(), "sub");
        let is_blog = blog_title.is_some() || sub.is_some();
        let title: String = match blog_title {
            Some(t) => t,
            None => match select_first(frag.as_str(), "x-title") {
                Some(t) => t,
                None => {
                    return Err(
                        MergeError::RequiredMarkerMissing { marker: String::from_str("x-title") },
                    );
                },
            },
        };
        let pub_date: String = if is_blog {
            match sub {
                Some(d) => d,
                None => {
                    return Err(
                        MergeError::RequiredMarkerMissing { marker: String::from_str("sub") },
                    );
                },
            }
        } else if settings.derive_date_for_non_blog {
            String::from_str(today)
        } else {
            String::new()
        };
        let tags_raw: String = match select_first(frag.as_str(), "x-tags") {
            Some(t) => t,
            None => {
                return Err(MergeError::RequiredMarkerMissing { marker: String::from_str("x-tags") });
            },
        };
        let description: String = match select_first(frag.as_str(), "x-desc") {
            Some(d) => d,
            None => {
                if is_blog {
                    title.clone()
                } else {
                    return Err(
                        MergeError::RequiredMarkerMissing { marker: String::from_str("x-desc") },
                    );
                }
            },
        };
        let tags_raw_chars = str_to_chars(tags_raw.as_str());
        let tags: Vec<String> = split_tags_chars(tags_raw_chars.as_slice());
        let folder_chars = str_to_chars(self.folder.as_str());
        let seg = last_segment(folder_chars.as_slice());
        let public_chars = str_to_chars("public");
        let is_root = eq_chars(seg.as_slice(), public_chars.as_slice());
        let vanity: String;
        let url: String;
        if is_root {
            vanity = String::from_str("/");
            url = settings.webroot.clone().concat("/");
        } else {
            let seg_str = chars_to_string(seg.as_slice());
            vanity = String::from_str("/blog/posts/").concat(seg_str.as_str());
            url = settings.webroot.clone().concat("/blog/posts/").concat(seg_str.as_str());
        }
        let frag_chars = str_to_chars(frag.as_str());
        let x_index_chars = str_to_chars("<x-index/>");
        let is_index = contains_chars(frag_chars.as_slice(), x_index_chars.as_slice());
        let template_text: &String = if is_index {
            match &settings.templateindex {
                Some(t) => t,
                None => &settings.template,
            }
        } else {
            &settings.template
        };
        let mut t: Vec<char> = str_to_chars(template_text.as_str());
        if is_blog {
            let body_open = str_to_chars("<body>");
            let body_classed = str_to_chars("<body class='blog'>");
            t = replace_first(t.as_slice(), body_open.as_slice(), body_classed.as_slice());
        }
        let ghost t0 = t@;
        let titletag_chars = str_to_chars(settings.titletag.as_str());
        if !contains_chars(t.as_slice(), titletag_chars.as_slice()) {
            return Err(MergeError::MarkerNotInTemplate { marker: settings.titletag.clone() });
        }
        let title_chars = str_to_chars(title.as_str());
        t = replace_first(t.as_slice(), titletag_chars.as_slice(), title_chars.as_slice());
        let keywordstag_chars = str_to_chars(settings.keywordstag.as_str());
        if !contains_chars(t.as_slice(), keywordstag_chars.as_slice()) {
            return Err(MergeError::MarkerNotInTemplate { marker: settings.keywordstag.clone() });
        }
        t = replace_first(t.as_slice(), keywordstag_chars.as_slice(), tags_raw_chars.as_slice());
        let descriptiontag_chars = str_to_chars(settings.descriptiontag.as_str());
        if !contains_chars(t.as_slice(), descriptiontag_chars.as_slice()) {
            return Err(
                MergeError::MarkerNotInTemplate { marker: settings.descriptiontag.clone() },
            );
        }
        let description_chars = str_to_chars(description.as_str());
        t = replace_first(
            t.as_slice(),
            descriptiontag_chars.as_slice(),
            description_chars.as_slice(),
        );
        let contenttag_chars = str_to_chars(settings.contenttag.as_str());
        if !contains_chars(t.as_slice(), contenttag_chars.as_slice()) {
            return Err(MergeError::MarkerNotInTemplate { marker: settings.contenttag.clone() });
        }
        t = replace_first(t.as_slice(), contenttag_chars.as_slice(), frag_chars.as_slice());
        self.is_blog = is_blog;
        self.title = title;
        self.pub_date = pub_date;
        self.description = description;
        self.tags = tags;
        self.vanity = vanity;
        self.url = url;
        self.html = chars_to_string(t.as_slice());
        Ok(())
    }

    /// Merges the unit's fragment into the configured template, taking
    /// the merge-time date from the local clock. The date only matters
    /// for non-blog pages configured to derive one.
    pub fn mangle_template(&mut self, settings: &Settings) -> (r: Result<(), MergeError>)
        ensures
            exists|d: Seq<char>|
                mangle_outcome(*old(self), *final(self), *settings, d, r),
    {
        let today = local_date();
        let r = self.mangle_template_with(settings, today.as_str());
        proof {
            assert(mangle_outcome(*old(self), *self, *settings, today@, r));
        }
        r
    }
}

/// Law: a fragment with a blog-title marker or a `<sub>` element is
/// classified as a blog post, and when merging succeeds the stored
/// publish date is the verbatim inner content of the first `<sub>`
/// element.
pub proof fn lemma_blog_signals(
    pre: Post,
    post: Post,
    s: Settings,
    today: Seq<char>,
    r: Result<(), MergeError>,
)
    requires
        mangle_outcome(pre, post, s, today, r),
        first_inner_html(pre.html@, "x-blog-title"@) is Some || first_inner_html(
            pre.html@,
            "sub"@,
        ) is Some,
    ensures
        spec_is_blog(pre.html@),
        r is Ok ==> post.is_blog,
        r is Ok && first_inner_html(pre.html@, "sub"@) is Some ==> post.pub_date@
            == first_inner_html(pre.html@, "sub"@)->0,
{
}

/// Law: a fragment lacking a title marker of either kind never merges;
/// it fails with a required-marker-missing error naming the generic
/// title marker, and the unit is unchanged.
pub proof fn lemma_missing_title(
    pre: Post,
    post: Post,
    s: Settings,
    today: Seq<char>,
    r: Result<(), MergeError>,
)
    requires
        mangle_outcome(pre, post, s, today, r),
        first_inner_html(pre.html@, "x-blog-title"@) is None,
        first_inner_html(pre.html@, "x-title"@) is None,
    ensures
        r is Err,
        r matches Err(e) ==> e matches MergeError::RequiredMarkerMissing { marker } && marker@
            == "x-title"@,
        post == pre,
{
}

/// Law: merging never fails when every required marker is present in
/// the fragment and every configured token occurs where the
/// substitution chain looks for it.
pub proof fn lemma_merge_success_owed(
    pre: Post,
    post: Post,
    s: Settings,
    today: Seq<char>,
    r: Result<(), MergeError>,
)
    requires
        mangle_outcome(pre, post, s, today, r),
        spec_missing_marker(pre.html@) is None,
        spec_merged_html(pre.html@, s) is Ok,
    ensures
        r is Ok,
{
}

/// Law: the canonical URL and the short slug are determined by the
/// output folder's last path segment alone: the reserved root folder
/// name maps to the webroot with `/`, and any other segment `X` maps to
/// `webroot + "/blog/posts/" + X` with slug `/blog/posts/X`.
pub proof fn lemma_url_shape(webroot: Seq<char>, folder: Seq<char>)
    ensures
        spec_last_seg(folder) == "public"@ ==> spec_url(webroot, folder) == webroot + "/"@
            && spec_vanity(folder) == "/"@,
        spec_last_seg(folder) != "public"@ ==> spec_url(webroot, folder) == webroot
            + "/blog/posts/"@ + spec_last_seg(folder) && spec_vanity(folder) == "/blog/posts/"@
            + spec_last_seg(folder),
{
}

} // verus!
