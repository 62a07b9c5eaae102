//! The build pass end to end, with the real template engine linked, plus
//! configuration validation and content selection.

use rawssg::builder::{select_content_paths, sort_pages, Builder};
use rawssg::cli::{apply_build_options, process_command, CommandPlan, Commands};
use rawssg::config::{default_layout, default_output_dir, default_template_dir, RawConfig};
use rawssg::error::RawSSGError;
use rawssg::frontmatter::{Content, Frontmatter};
use rawssg::template::TemplateEngine;

fn dated(date: Option<&str>) -> Content {
    Content {
        frontmatter: Frontmatter { date: date.map(|d| d.to_string()), ..Frontmatter::default() },
        body: String::new(),
        path: "content/x.rw".to_string(),
    }
}

#[test]
fn pages_sort_descending_with_dateless_last() {
    let pages = vec![dated(Some("2024-01-01")), dated(Some("2024-03-01")), dated(None)];
    let sorted = sort_pages(pages);
    let keys: Vec<Option<String>> = sorted.iter().map(|c| c.frontmatter.date.clone()).collect();
    assert_eq!(
        keys,
        vec![Some("2024-03-01".to_string()), Some("2024-01-01".to_string()), None]
    );
}

#[test]
fn sort_is_stable_for_equal_dates() {
    let mut a = dated(Some("2024-01-01"));
    a.path = "content/first.rw".to_string();
    let mut b = dated(Some("2024-01-01"));
    b.path = "content/second.rw".to_string();
    let sorted = sort_pages(vec![a, b]);
    assert_eq!(sorted[0].path, "content/first.rw");
    assert_eq!(sorted[1].path, "content/second.rw");
}

#[test]
fn selection_filters_by_extension_and_ignores() {
    let paths = vec![
        "content/a.rw".to_string(),
        "content/b.md".to_string(),
        "content/c.txt".to_string(),
        "content/drafts/d.rw".to_string(),
        "noext".to_string(),
    ];
    let exts = vec!["rw".to_string(), "md".to_string()];
    let ignores = vec!["drafts/".to_string()];
    let kept = select_content_paths(&paths, &exts, &ignores);
    assert_eq!(kept, vec!["content/a.rw".to_string(), "content/b.md".to_string()]);
}

#[test]
fn defaults_are_the_documented_ones() {
    assert_eq!(default_output_dir(), "dist");
    assert_eq!(default_template_dir(), "templates");
    assert_eq!(default_layout(), "base.html");
}

#[test]
fn config_version_mismatch_is_rejected() {
    let mut config = RawConfig::default_config("2024");
    config.version = "9.9.9".to_string();
    let err = config.validate().unwrap_err();
    match err {
        RawSSGError::Config(m) => {
            assert_eq!(m, "Config version 9.9.9 does not match expected version 0.0.2")
        },
        other => panic!("wrong error: {:?}", other),
    }
}

#[test]
fn strict_mode_rejects_empty_titles_and_urls() {
    let mut config = RawConfig::default_config("2024");
    config.build.strict = true;
    config.title = String::new();
    assert!(matches!(config.validate(), Err(RawSSGError::Config(_))));
    let mut config2 = RawConfig::default_config("2024");
    config2.build.strict = true;
    config2.nav[0].url = String::new();
    assert!(matches!(config2.validate(), Err(RawSSGError::Config(_))));
    let config3 = RawConfig::default_config("2024");
    assert!(config3.validate().is_ok());
}

#[test]
fn build_options_override_the_configuration() {
    let mut config = RawConfig::default_config("2024");
    apply_build_options(&mut config, true, true, true);
    assert!(config.build.clean_build);
    assert!(config.build.minify.html && config.build.minify.css && config.build.minify.js);
    assert!(config.content.drafts);
}

#[test]
fn commands_map_to_their_plans() {
    let plan = process_command(Commands::Build {
        clean: true,
        watch: false,
        minify: true,
        drafts: false,
        config: ".rawfile".to_string(),
    });
    match plan {
        CommandPlan::Build { clean, watch, minify, drafts, config } => {
            assert!(clean && !watch && minify && !drafts);
            assert_eq!(config, ".rawfile");
        },
        other => panic!("wrong plan: {:?}", other),
    }
    let new_plan = process_command(Commands::New {
        content_type: rawssg::cli::ContentType::Article,
        title: "T".to_string(),
        draft: false,
        config: ".rawfile".to_string(),
    });
    match new_plan {
        CommandPlan::New { kind, .. } => assert_eq!(kind, "article"),
        other => panic!("wrong plan: {:?}", other),
    }
}

fn engine_with_base() -> TemplateEngine {
    let hb = handlebars::Handlebars::new();
    let mut engine = TemplateEngine::new(hb);
    let files = vec![(
        "base.html".to_string(),
        "<html><head><title>{{title}}</title></head><body>{{content}}</body></html>".to_string(),
    )];
    engine.register_files(&files).unwrap();
    engine
}

fn site_config() -> RawConfig {
    let mut config = RawConfig::default_config("2024");
    config.base_url = Some("https://example.com".to_string());
    config.build.generate.sitemap = true;
    config.build.generate.robots = true;
    config.build.generate.feed = true;
    config
}

fn build_sources() -> Vec<(String, String)> {
    vec![
        (
            "content/index.rw".to_string(),
            "---\ntitle: Home\nslug: index\ndate: 2024-01-01\n---\nWelcome home.".to_string(),
        ),
        (
            "content/about.rw".to_string(),
            "---\ntitle: About\nslug: about\ndate: 2024-01-02\n---\nAll about us.".to_string(),
        ),
    ]
}

fn make_builder() -> Builder {
    Builder::new(
        site_config(),
        engine_with_base(),
        "0.1.0".to_string(),
        "2024-06-01T00:00:00+00:00".to_string(),
        "Sat, 1 Jun 2024 00:00:00 +0000".to_string(),
    )
}

#[test]
fn a_full_build_produces_pages_and_artifacts() {
    let builder = make_builder();
    let plan = builder.build(&build_sources()).unwrap();
    assert_eq!(plan.output_dir, "dist");
    assert!(!plan.clean_first);
    // sorted descending by date: about (2024-01-02) first, index second
    assert_eq!(plan.pages.len(), 2);
    assert_eq!(plan.pages[0].path, "about/index.html");
    assert_eq!(plan.pages[1].path, "index.html");
    assert!(plan.pages[0].text.contains("<title>About</title>"));
    assert!(plan.pages[0].text.contains("All about us."));
    assert!(plan.pages[1].text.contains("Welcome home."));
    let sitemap = plan.sitemap.unwrap();
    assert_eq!(sitemap.matches("<url>").count(), 2);
    assert!(sitemap.contains("<loc>https://example.com/</loc>"));
    assert!(sitemap.contains("<loc>https://example.com/about/</loc>"));
    let feed = plan.feed.unwrap();
    assert_eq!(feed.matches("<item>").count(), 2);
    let robots = plan.robots.unwrap();
    assert!(robots.contains("https://example.com/sitemap.xml"));
    assert!(plan.build_info.contains("\"generator\":\"RawSSG\""));
}

#[test]
fn an_empty_page_set_fails_the_build() {
    let builder = make_builder();
    let err = builder.build(&Vec::new()).unwrap_err();
    match err {
        RawSSGError::Build(m) => assert_eq!(m, "No content files found"),
        other => panic!("wrong error: {:?}", other),
    }
}

#[test]
fn drafts_are_excluded_unless_enabled() {
    let mut builder = make_builder();
    let mut sources = build_sources();
    sources.push((
        "content/wip.rw".to_string(),
        "---\ntitle: WIP\nslug: wip\ndraft: true\n---\nUnfinished.".to_string(),
    ));
    let plan = builder.build(&sources).unwrap();
    assert_eq!(plan.pages.len(), 2);
    builder.config.content.drafts = true;
    let plan2 = builder.build(&sources).unwrap();
    assert_eq!(plan2.pages.len(), 3);
}

#[test]
fn a_missing_base_url_fails_sitemap_generation() {
    let mut config = site_config();
    config.base_url = None;
    let builder = Builder::new(
        config,
        engine_with_base(),
        "0.1.0".to_string(),
        "2024-06-01T00:00:00+00:00".to_string(),
        "Sat, 1 Jun 2024 00:00:00 +0000".to_string(),
    );
    let err = builder.build(&build_sources()).unwrap_err();
    match err {
        RawSSGError::Config(m) => assert_eq!(m, "Base URL required for sitemap"),
        other => panic!("wrong error: {:?}", other),
    }
}

#[test]
fn unresolved_templates_fall_back_to_base() {
    let engine = engine_with_base();
    let c = Content {
        frontmatter: Frontmatter {
            template: Some("missing.html".to_string()),
            ..Frontmatter::default()
        },
        body: String::new(),
        path: "content/x.rw".to_string(),
    };
    assert_eq!(engine.resolve(&c, "base.html"), "base.html");
    assert!(engine.has_template("base.html"));
    assert!(!engine.has_template("missing.html"));
}

#[test]
fn partials_register_under_stripped_names() {
    let hb = handlebars::Handlebars::new();
    let mut engine = TemplateEngine::new(hb);
    let files = vec![
        ("partials/_sidebar.html".to_string(), "<nav>side</nav>".to_string()),
        ("post.html".to_string(), "<article>{{> sidebar}}{{content}}</article>".to_string()),
        ("static/app.js".to_string(), "ignored();".to_string()),
    ];
    engine.register_files(&files).unwrap();
    assert!(engine.has_template("sidebar"));
    assert!(engine.has_template("post.html"));
    assert!(!engine.has_template("static/app.js"));
    let out = engine
        .render("post.html", "{\"content\":\"hello\"}")
        .unwrap();
    assert_eq!(out, "<article><nav>side</nav>hello</article>");
}

#[test]
fn invalid_template_data_fails_with_json_error() {
    let engine = engine_with_base();
    let err = engine.render("base.html", "{not json").unwrap_err();
    assert!(matches!(err, RawSSGError::Json(_)));
}

#[test]
fn rendering_an_unregistered_template_fails() {
    let engine = engine_with_base();
    let err = engine.render("nope.html", "{}").unwrap_err();
    assert!(matches!(err, RawSSGError::Render(_)));
}
