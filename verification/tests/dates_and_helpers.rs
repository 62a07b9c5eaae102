//! Calendar arithmetic, the template helpers, and content creation.

use rawssg::cli::{new_content_document, slugify, ContentType};
use rawssg::date::{format_display_date, format_rfc2822_midnight, i64_to_string, parse_iso_date,
    parse_rfc3339_date};
use rawssg::helpers::{helper_date, helper_eq, helper_lowercase, helper_neq, helper_safe,
    HelperParam};

#[test]
fn iso_dates_parse_strictly() {
    assert_eq!(parse_iso_date("2024-01-02"), Some((2024, 1, 2)));
    assert_eq!(parse_iso_date("2024-02-29"), Some((2024, 2, 29)));
    assert_eq!(parse_iso_date("2023-02-29"), None);
    assert_eq!(parse_iso_date("2024-13-01"), None);
    assert_eq!(parse_iso_date("2024-00-10"), None);
    assert_eq!(parse_iso_date("2024-1-2"), None);
    assert_eq!(parse_iso_date("not a date"), None);
}

#[test]
fn rfc3339_timestamps_yield_their_date() {
    assert_eq!(parse_rfc3339_date("2024-03-05T12:30:00Z"), Some((2024, 3, 5)));
    assert_eq!(parse_rfc3339_date("2024-03-05T12:30:00+02:00"), Some((2024, 3, 5)));
    assert_eq!(parse_rfc3339_date("2024-03-05T12:30:00.25Z"), Some((2024, 3, 5)));
    assert_eq!(parse_rfc3339_date("2024-03-05T25:00:00Z"), None);
    assert_eq!(parse_rfc3339_date("2024-03-05 12:30:00Z"), None);
}

#[test]
fn display_dates_render_like_the_date_helper() {
    assert_eq!(format_display_date(2024, 1, 15), "January 15, 2024");
    assert_eq!(format_display_date(2024, 5, 3), "May  3, 2024");
}

#[test]
fn rfc2822_midnight_carries_the_weekday() {
    assert_eq!(format_rfc2822_midnight(2024, 1, 1), "Mon, 1 Jan 2024 00:00:00 +0000");
    assert_eq!(format_rfc2822_midnight(2024, 2, 29), "Thu, 29 Feb 2024 00:00:00 +0000");
    assert_eq!(format_rfc2822_midnight(1970, 1, 1), "Thu, 1 Jan 1970 00:00:00 +0000");
}

#[test]
fn date_helper_formats_or_passes_through() {
    assert_eq!(helper_date("2024-01-15"), "January 15, 2024");
    assert_eq!(helper_date("2024-03-05T12:30:00Z"), "March  5, 2024");
    assert_eq!(helper_date("yesterday"), "yesterday");
}

#[test]
fn eq_helper_coerces_strings_and_integers() {
    let a = HelperParam::Str("42".to_string());
    let b = HelperParam::Int(42);
    assert_eq!(helper_eq(&a, &b), "true");
    assert_eq!(helper_neq(&a, &b), "false");
    let c = HelperParam::Str("x".to_string());
    assert_eq!(helper_eq(&a, &c), "false");
    assert_eq!(helper_neq(&a, &c), "true");
    let missing = HelperParam::Missing;
    let empty = HelperParam::Str(String::new());
    assert_eq!(helper_eq(&missing, &empty), "true");
}

#[test]
fn integer_rendering_is_decimal() {
    assert_eq!(i64_to_string(0), "0");
    assert_eq!(i64_to_string(42), "42");
    assert_eq!(i64_to_string(-7), "-7");
    assert_eq!(i64_to_string(i64::MIN), "-9223372036854775808");
}

#[test]
fn lowercase_helper_lowers() {
    assert_eq!(helper_lowercase(&Some("HeLLo".to_string())), "hello");
    assert_eq!(helper_lowercase(&None), "");
}

#[test]
fn safe_helper_passes_markup_through() {
    assert_eq!(helper_safe(&Some("<b>x</b>".to_string())), "<b>x</b>");
    assert_eq!(helper_safe(&None), "");
}

#[test]
fn slugify_builds_clean_slugs() {
    assert_eq!(slugify("Hello World"), "hello-world");
    assert_eq!(slugify("  My First Post!  "), "my-first-post");
    assert_eq!(slugify("A-B c_d"), "a-b cd".replace(' ', "-"));
}

#[test]
fn new_content_documents_have_frontmatter() {
    let doc = new_content_document(&ContentType::Post, "My Post", "my-post", "2024-06-01", false);
    assert!(doc.starts_with("---\ntitle: My Post\nslug: my-post\ndate: 2024-06-01\n"));
    assert!(doc.contains("draft: false"));
    assert!(doc.contains("category: post"));
    let note = new_content_document(&ContentType::Note, "Idea", "idea", "2024-06-01", true);
    assert!(note.contains("type: note"));
    assert!(note.contains("draft: true"));
    assert!(note.contains("Quick note: Idea"));
}
