//! Artifact documents and the debounce filter.

use rawssg::artifacts::{generate_build_info, generate_feed, generate_robots, generate_sitemap};
use rawssg::frontmatter::{Content, Frontmatter};
use rawssg::watcher::{should_trigger, WatchEventKind, WatchState};

fn page(slug: &str, date: Option<&str>, body: &str) -> Content {
    Content {
        frontmatter: Frontmatter {
            slug: Some(slug.to_string()),
            date: date.map(|d| d.to_string()),
            ..Frontmatter::default()
        },
        body: body.to_string(),
        path: format!("content/{}.rw", slug),
    }
}

#[test]
fn sitemap_lists_each_page_with_lastmod() {
    let pages = vec![
        page("index", Some("2024-03-01"), ""),
        page("about", Some("2024-01-01"), ""),
    ];
    let s = generate_sitemap(&pages, "https://example.com", false);
    assert!(s.starts_with("<?xml version=\"1.0\" encoding=\"UTF-8\"?>\n<urlset"));
    assert!(s.contains("<loc>https://example.com/</loc>"));
    assert!(s.contains("<loc>https://example.com/about/</loc>"));
    assert!(s.contains("<lastmod>2024-03-01</lastmod>"));
    assert!(s.ends_with("</urlset>"));
    assert_eq!(s.matches("<url>").count(), 2);
}

#[test]
fn sitemap_omits_lastmod_for_unparsable_dates() {
    let pages = vec![page("a", Some("sometime in march"), "")];
    let s = generate_sitemap(&pages, "https://example.com", false);
    assert!(!s.contains("<lastmod>"));
}

#[test]
fn feed_lists_at_most_ten_items() {
    let mut pages = Vec::new();
    for i in 0..12 {
        pages.push(page(&format!("p{}", i), Some("2024-01-01"), "text"));
    }
    let f = generate_feed(&pages, "My Site", &None, "https://example.com", "Mon, 01 Jan 2024 00:00:00 +0000", false);
    assert_eq!(f.matches("<item>").count(), 10);
}

#[test]
fn feed_escapes_the_description_and_truncates() {
    let long_body = format!("{}<&>{}", "x".repeat(197), "y".repeat(50));
    let pages = vec![page("a", None, &long_body)];
    let f = generate_feed(&pages, "T", &Some("D".to_string()), "https://e.com", "Mon, 01 Jan 2024 00:00:00 +0000", false);
    assert!(f.contains("<description>"));
    // the first 200 characters include the three escaped ones
    assert!(f.contains("&lt;&amp;&gt;"));
    assert!(!f.contains("yyyy"));
    assert!(f.contains("<title>T</title>"));
    assert!(f.contains("<description>D</description>"));
    assert!(f.contains("<lastBuildDate>Mon, 01 Jan 2024 00:00:00 +0000</lastBuildDate>"));
}

#[test]
fn feed_links_index_to_the_bare_base_url() {
    let pages = vec![page("index", Some("2024-01-02"), "hello")];
    let f = generate_feed(&pages, "T", &None, "https://e.com", "Mon, 01 Jan 2024 00:00:00 +0000", false);
    assert!(f.contains("<link>https://e.com</link>\n"));
    assert!(f.contains("<pubDate>Tue, 2 Jan 2024 00:00:00 +0000</pubDate>"));
}

#[test]
fn robots_references_the_sitemap() {
    assert_eq!(
        generate_robots("https://example.com/"),
        "User-agent: *\nAllow: /\n\nSitemap: https://example.com/sitemap.xml"
    );
    assert_eq!(
        generate_robots("https://example.com"),
        "User-agent: *\nAllow: /\n\nSitemap: https://example.com/sitemap.xml"
    );
}

#[test]
fn build_info_is_a_small_json_document() {
    let s = generate_build_info("0.3.1", "2024-01-01T00:00:00+00:00", "0.0.2");
    assert_eq!(
        s,
        "{\"generator\":\"RawSSG\",\"version\":\"0.3.1\",\"build_time\":\"2024-01-01T00:00:00+00:00\",\"config_version\":\"0.0.2\",\"pages_count\":0}"
    );
    let parsed: serde_json::Value = serde_json::from_str(&s).unwrap();
    assert_eq!(parsed["generator"], "RawSSG");
    assert_eq!(parsed["pages_count"], 0);
}

#[test]
fn only_mutating_events_qualify() {
    assert!(should_trigger(WatchEventKind::Create));
    assert!(should_trigger(WatchEventKind::Modify));
    assert!(should_trigger(WatchEventKind::Remove));
    assert!(!should_trigger(WatchEventKind::Other));
}

#[test]
fn a_burst_inside_one_window_triggers_once() {
    let mut st = WatchState::new(0, 500);
    let mut rebuilds = 0;
    for t in [600u64, 700, 800, 900, 1000, 1100] {
        if st.observe(WatchEventKind::Modify, t) {
            rebuilds += 1;
        }
    }
    assert_eq!(rebuilds, 1);
}

#[test]
fn spaced_events_each_trigger() {
    let mut st = WatchState::new(0, 500);
    let mut rebuilds = 0;
    for t in [600u64, 1200, 1800, 2400] {
        if st.observe(WatchEventKind::Create, t) {
            rebuilds += 1;
        }
    }
    assert_eq!(rebuilds, 4);
}

#[test]
fn non_qualifying_events_never_trigger() {
    let mut st = WatchState::new(0, 500);
    assert!(!st.observe(WatchEventKind::Other, 10_000));
    // and they do not move the window
    assert!(st.observe(WatchEventKind::Modify, 10_001));
}
