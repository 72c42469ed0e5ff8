use sitegen::post::{MergeError, Post};
use sitegen::settings::Settings;

fn settings() -> Settings {
    Settings {
        template: String::from(
            "<html><head><title>{{TITLE}}</title>\
             <meta k='{{KEYWORDS}}' d='{{DESC}}'></head>\
             <body>{{CONTENT}}</body></html>",
        ),
        templateindex: None,
        webroot: String::from("https://example.org"),
        titletag: String::from("{{TITLE}}"),
        keywordstag: String::from("{{KEYWORDS}}"),
        descriptiontag: String::from("{{DESC}}"),
        contenttag: String::from("{{CONTENT}}"),
        derive_date_for_non_blog: true,
    }
}

fn post_with_fragment(folder: &str, fragment: &str) -> Post {
    let mut post = Post::new(String::from("src.md"), String::from(folder));
    post.html = String::from(fragment);
    post
}

#[test]
fn renders_extended_markdown() {
    let mut post = Post::new(String::from("posts/t/index.md"), String::from("posts/t"));
    let md = "a footnote[^1]\n\n[^1]: the note\n\n\
              ~~gone~~\n\n\
              | x | y |\n|:--|--:|\n| 1 | 2 |\n";
    post.markdown_to_html(md);
    assert_eq!(post.markdown, md);
    assert!(post.html.contains("<table>"));
    assert!(post.html.contains("<del>gone</del>"));
    assert!(post.html.contains("footnote"));
    assert!(!post.html.contains(" align=\"left\""));
}

#[test]
fn blog_via_sub_reads_verbatim_date() {
    let mut post = post_with_fragment(
        "posts/a",
        "<x-title>T</x-title><x-tags>a</x-tags><sub>2024-01-01</sub>",
    );
    let r = post.mangle_template_with(&settings(), "2099-12-31");
    assert!(r.is_ok());
    assert!(post.is_blog);
    assert_eq!(post.pub_date, "2024-01-01");
    assert_eq!(post.title, "T");
}

#[test]
fn blog_via_blog_title_needs_sub() {
    let mut post = post_with_fragment(
        "posts/a",
        "<x-blog-title>B</x-blog-title><x-tags>a</x-tags>",
    );
    let before = post.html.clone();
    let r = post.mangle_template_with(&settings(), "2099-12-31");
    match r {
        Err(MergeError::RequiredMarkerMissing { marker }) => assert_eq!(marker, "sub"),
        other => panic!("expected missing sub marker, got {:?}", other),
    }
    assert_eq!(post.html, before);
    assert!(!post.is_blog);
}

#[test]
fn blog_title_marker_wins_and_classifies() {
    let mut post = post_with_fragment(
        "posts/a",
        "<x-blog-title>B</x-blog-title><x-title>T</x-title>\
         <x-tags>a</x-tags><sub>2020-02-02</sub>",
    );
    let r = post.mangle_template_with(&settings(), "2099-12-31");
    assert!(r.is_ok());
    assert!(post.is_blog);
    assert_eq!(post.title, "B");
    assert_eq!(post.pub_date, "2020-02-02");
}

#[test]
fn missing_title_marker_fails() {
    let mut post = post_with_fragment("posts/a", "<p>no markers</p><x-tags>a</x-tags>");
    let before = post.html.clone();
    let r = post.mangle_template_with(&settings(), "2099-12-31");
    match r {
        Err(MergeError::RequiredMarkerMissing { marker }) => assert_eq!(marker, "x-title"),
        other => panic!("expected missing title marker, got {:?}", other),
    }
    assert_eq!(post.html, before);
}

#[test]
fn missing_tags_marker_fails() {
    let mut post = post_with_fragment("posts/a", "<x-title>T</x-title><x-desc>D</x-desc>");
    let r = post.mangle_template_with(&settings(), "2099-12-31");
    match r {
        Err(MergeError::RequiredMarkerMissing { marker }) => assert_eq!(marker, "x-tags"),
        other => panic!("expected missing tags marker, got {:?}", other),
    }
}

#[test]
fn missing_description_fatal_for_non_blog() {
    let mut post = post_with_fragment("posts/a", "<x-title>T</x-title><x-tags>a</x-tags>");
    let r = post.mangle_template_with(&settings(), "2099-12-31");
    match r {
        Err(MergeError::RequiredMarkerMissing { marker }) => assert_eq!(marker, "x-desc"),
        other => panic!("expected missing description marker, got {:?}", other),
    }
}

#[test]
fn tags_trimmed_order_and_duplicates_kept() {
    let mut post = post_with_fragment(
        "posts/a",
        "<x-title>T</x-title><x-tags>a, b ,c</x-tags><x-desc>D</x-desc>",
    );
    let r = post.mangle_template_with(&settings(), "2099-12-31");
    assert!(r.is_ok());
    assert_eq!(post.tags, vec!["a", "b", "c"]);

    let mut post = post_with_fragment(
        "posts/a",
        "<x-title>T</x-title><x-tags>x, x,,b, a</x-tags><x-desc>D</x-desc>",
    );
    let r = post.mangle_template_with(&settings(), "2099-12-31");
    assert!(r.is_ok());
    assert_eq!(post.tags, vec!["x", "x", "", "b", "a"]);

    let mut post = post_with_fragment(
        "posts/a",
        "<x-title>T</x-title><x-tags>\tone ,\ntwo</x-tags><x-desc>D</x-desc>",
    );
    let r = post.mangle_template_with(&settings(), "2099-12-31");
    assert!(r.is_ok());
    assert_eq!(post.tags, vec!["one", "two"]);
}

#[test]
fn empty_markdown_renders_empty_fragment() {
    let mut post = Post::new(String::from("a.md"), String::from("a"));
    post.markdown_to_html("");
    assert_eq!(post.markdown, "");
    assert_eq!(post.html, "");
}

#[test]
fn url_for_root_folder() {
    let mut post = post_with_fragment(
        "public",
        "<x-title>T</x-title><x-tags>a</x-tags><x-desc>D</x-desc>",
    );
    let r = post.mangle_template_with(&settings(), "2099-12-31");
    assert!(r.is_ok());
    assert_eq!(post.vanity, "/");
    assert_eq!(post.url, "https://example.org/");
}

#[test]
fn url_for_post_folder() {
    let mut post = post_with_fragment(
        "content/posts/hello",
        "<x-title>T</x-title><x-tags>a</x-tags><x-desc>D</x-desc>",
    );
    let r = post.mangle_template_with(&settings(), "2099-12-31");
    assert!(r.is_ok());
    assert_eq!(post.vanity, "/blog/posts/hello");
    assert_eq!(post.url, "https://example.org/blog/posts/hello");
}

#[test]
fn substitution_places_values_at_marker_positions() {
    let fragment = "<x-title>T</x-title><x-tags>a, b</x-tags><x-desc>D</x-desc>";
    let mut post = post_with_fragment("posts/a", fragment);
    let s = settings();
    let r = post.mangle_template_with(&s, "2030-05-06");
    assert!(r.is_ok());
    let expected = s
        .template
        .replacen("{{TITLE}}", "T", 1)
        .replacen("{{KEYWORDS}}", "a, b", 1)
        .replacen("{{DESC}}", "D", 1)
        .replacen("{{CONTENT}}", fragment, 1);
    assert_eq!(post.html, expected);
    assert!(!post.html.contains("{{TITLE}}"));
    assert!(!post.html.contains("{{KEYWORDS}}"));
    assert!(!post.html.contains("{{DESC}}"));
    assert!(!post.html.contains("{{CONTENT}}"));
}

#[test]
fn non_blog_derives_date_only_when_configured() {
    let fragment = "<x-title>T</x-title><x-tags>a</x-tags><x-desc>D</x-desc>";
    let mut post = post_with_fragment("posts/a", fragment);
    let r = post.mangle_template_with(&settings(), "2030-05-06");
    assert!(r.is_ok());
    assert_eq!(post.pub_date, "2030-05-06");

    let mut s = settings();
    s.derive_date_for_non_blog = false;
    let mut post = post_with_fragment("posts/a", fragment);
    let r = post.mangle_template_with(&s, "2030-05-06");
    assert!(r.is_ok());
    assert_eq!(post.pub_date, "");
}

#[test]
fn index_marker_selects_index_template() {
    let mut s = settings();
    s.templateindex = Some(String::from(
        "<html><body>INDEX {{TITLE}} {{KEYWORDS}} {{DESC}} {{CONTENT}}</body></html>",
    ));
    let mut post = post_with_fragment(
        "public",
        "<x-index/><x-title>T</x-title><x-tags>a</x-tags><x-desc>D</x-desc>",
    );
    let r = post.mangle_template_with(&s, "2030-05-06");
    assert!(r.is_ok());
    assert!(post.html.starts_with("<html><body>INDEX T"));
}

#[test]
fn template_missing_token_fails() {
    let mut s = settings();
    s.template = String::from("<html><head><title>{{TITLE}}</title></head><body></body></html>");
    let mut post = post_with_fragment(
        "posts/a",
        "<x-title>T</x-title><x-tags>a</x-tags><x-desc>D</x-desc>",
    );
    let before = post.html.clone();
    let r = post.mangle_template_with(&s, "2030-05-06");
    match r {
        Err(MergeError::MarkerNotInTemplate { marker }) => assert_eq!(marker, "{{KEYWORDS}}"),
        other => panic!("expected missing template token, got {:?}", other),
    }
    assert_eq!(post.html, before);
    assert_eq!(post.tags.len(), 0);
}

#[test]
fn blog_body_class_inserted() {
    let mut post = post_with_fragment(
        "posts/a",
        "<x-title>T</x-title><x-tags>a</x-tags><sub>2024-01-01</sub>",
    );
    let r = post.mangle_template_with(&settings(), "2099-12-31");
    assert!(r.is_ok());
    assert!(post.html.contains("<body class='blog'>"));
    assert!(!post.html.contains("<body>"));
}

#[test]
fn clock_based_merge_reads_sub_date() {
    let mut post = post_with_fragment(
        "posts/a",
        "<x-title>T</x-title><x-tags>a</x-tags><sub>2024-01-01</sub>",
    );
    let r = post.mangle_template(&settings());
    assert!(r.is_ok());
    assert_eq!(post.pub_date, "2024-01-01");
}

#[test]
fn end_to_end_hello() {
    let mut post = Post::new(
        String::from("posts/hello/index.md"),
        String::from("posts/hello"),
    );
    let md = "<x-title>Hello</x-title>\n<x-tags>a, b</x-tags>\n<sub>2024-01-01</sub>\n\n\
              # A heading\n";
    post.markdown_to_html(md);
    let r = post.mangle_template_with(&settings(), "2099-12-31");
    assert!(r.is_ok());
    assert!(post.is_blog);
    assert_eq!(post.title, "Hello");
    assert_eq!(post.description, "Hello");
    assert_eq!(post.pub_date, "2024-01-01");
    assert_eq!(post.tags, vec!["a", "b"]);
    assert!(post.html.contains("<body class='blog'>"));
    assert!(post.html.contains("<title>Hello</title>"));
    assert!(post.html.contains("k='a, b'"));
    assert!(post.html.contains("d='Hello'"));
    assert_eq!(post.url, "https://example.org/blog/posts/hello");
    assert_eq!(post.vanity, "/blog/posts/hello");
    assert_eq!(post.output_path(), "posts/hello/index.html");
}

#[test]
fn new_post_has_empty_derived_fields() {
    let post = Post::new(String::from("a/b.md"), String::from("a"));
    assert_eq!(post.path, "a/b.md");
    assert_eq!(post.folder, "a");
    assert_eq!(post.markdown, "");
    assert_eq!(post.html, "");
    assert!(!post.is_blog);
    assert_eq!(post.tags.len(), 0);
}
