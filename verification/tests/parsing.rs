//! Content parsing: frontmatter, defaults, skipping, and routing.

use rawssg::error::RawSSGError;
use rawssg::frontmatter::{Content, Frontmatter};
use rawssg::meta::MetaValue;

#[test]
fn no_frontmatter_is_all_default_with_whole_body() {
    let text = "Just some plain text.\nSecond line.\n";
    let c = Content::parse("content/plain.rw", text).unwrap();
    assert_eq!(c.body, text);
    assert_eq!(c.path, "content/plain.rw");
    assert!(c.frontmatter.title.is_none());
    assert!(c.frontmatter.slug.is_none());
    assert!(c.frontmatter.layout.is_none());
    assert!(c.frontmatter.template.is_none());
    assert!(c.frontmatter.date.is_none());
    assert!(c.frontmatter.draft.is_none());
    assert!(c.frontmatter.tags.is_none());
    assert!(c.frontmatter.categories.is_none());
    assert!(c.frontmatter.custom.is_empty());
}

#[test]
fn single_delimiter_fails_with_frontmatter_error() {
    let text = "---\ntitle: Broken\nno closing marker";
    let err = Content::parse("a.rw", text).unwrap_err();
    match err {
        RawSSGError::Frontmatter(m) => assert_eq!(m, "Invalid frontmatter format"),
        other => panic!("wrong error: {:?}", other),
    }
}

#[test]
fn frontmatter_fields_are_decoded() {
    let text = "---\ntitle: Hello\nslug: hello\ndate: 2024-01-02\ndraft: false\ntags:\n  - a\n  - b\nauthor: Jo\n---\nBody here.";
    let c = Content::parse("content/hello.rw", text).unwrap();
    assert_eq!(c.frontmatter.title.as_deref(), Some("Hello"));
    assert_eq!(c.frontmatter.slug.as_deref(), Some("hello"));
    assert_eq!(c.frontmatter.date.as_deref(), Some("2024-01-02"));
    assert_eq!(c.frontmatter.draft, Some(false));
    assert_eq!(
        c.frontmatter.tags,
        Some(vec!["a".to_string(), "b".to_string()])
    );
    assert_eq!(c.frontmatter.custom.len(), 1);
    assert_eq!(c.frontmatter.custom[0].0, "author");
    assert_eq!(c.frontmatter.custom[0].1, MetaValue::Str("Jo".to_string()));
    assert_eq!(c.body, "Body here.");
}

#[test]
fn wrongly_typed_field_fails_with_yaml_error() {
    let text = "---\ntitle:\n  - not\n  - a-string\n---\nbody";
    let err = Content::parse("a.rw", text).unwrap_err();
    assert!(matches!(err, RawSSGError::Yaml(_)));
}

#[test]
fn invalid_yaml_fails_with_yaml_error() {
    let text = "---\n: : :\n  ]broken\n---\nbody";
    let err = Content::parse("a.rw", text).unwrap_err();
    assert!(matches!(err, RawSSGError::Yaml(_)));
}

#[test]
fn numbers_survive_in_custom_metadata() {
    let text = "---\nweight: 42\nratio: 1.5\n---\nbody";
    let c = Content::parse("a.rw", text).unwrap();
    assert_eq!(c.frontmatter.custom.len(), 2);
    assert_eq!(c.frontmatter.custom[0].1, MetaValue::Num("42".to_string()));
    assert_eq!(c.frontmatter.custom[1].1, MetaValue::Num("1.5".to_string()));
}

fn content_with(slug: Option<&str>, draft: Option<bool>, path: &str) -> Content {
    Content {
        frontmatter: Frontmatter {
            slug: slug.map(|s| s.to_string()),
            draft,
            ..Frontmatter::default()
        },
        body: String::new(),
        path: path.to_string(),
    }
}

#[test]
fn draft_skipping_follows_the_flag() {
    let draft_page = content_with(None, Some(true), "p.rw");
    assert!(draft_page.should_skip(false));
    assert!(!draft_page.should_skip(true));
    let undeclared = content_with(None, None, "p.rw");
    assert!(!undeclared.should_skip(false));
    assert!(!undeclared.should_skip(true));
    let explicit_false = content_with(None, Some(false), "p.rw");
    assert!(!explicit_false.should_skip(false));
}

#[test]
fn index_slug_maps_to_site_root() {
    let c = content_with(Some("index"), None, "content/index.rw");
    assert_eq!(c.output_rel(), "index.html");
    assert_eq!(c.output_path("dist"), "dist/index.html");
}

#[test]
fn other_slug_maps_to_subdirectory() {
    let c = content_with(Some("about"), None, "content/about.rw");
    assert_eq!(c.output_rel(), "about/index.html");
    assert_eq!(c.output_path("dist"), "dist/about/index.html");
}

#[test]
fn missing_slug_falls_back_to_file_stem() {
    let c = content_with(None, None, "content/notes.rw");
    assert_eq!(c.slug(), "notes");
    assert_eq!(c.output_rel(), "notes/index.html");
}
