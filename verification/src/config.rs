//! The validated site configuration: the collaborator every build step
//! reads. Loading it from disk is the caller's concern; its invariants and
//! defaults live here.

use vstd::prelude::*;
use vstd::string::StringExecFns;
use crate::error::RawSSGError;
use crate::meta::MetaValue;
use crate::text::str_eq;

verus! {

/// The configuration schema version this library understands.
pub open spec fn spec_config_version() -> Seq<char> {
    "0.0.2"@
}

pub fn config_version() -> (r: &'static str)
    ensures
        r@ == spec_config_version(),
{
    "0.0.2"
}

#[derive(Debug)]
pub struct ContentConfig {
    pub format: Option<String>,
    pub extensions: Option<Vec<String>>,
    pub ignore: Option<Vec<String>>,
    pub drafts: bool,
}

#[derive(Debug)]
pub struct MinifyConfig {
    pub html: bool,
    pub css: bool,
    pub js: bool,
}

#[derive(Debug)]
pub struct GenerateConfig {
    pub sitemap: bool,
    pub robots: bool,
    pub feed: bool,
}

#[derive(Debug)]
pub struct BuildConfig {
    pub output_dir: String,
    pub clean_build: bool,
    pub minify: MinifyConfig,
    pub generate: GenerateConfig,
    pub strict: bool,
}

#[derive(Debug)]
pub struct TemplateConfig {
    pub dir: String,
    pub default_layout: String,
    pub partials: Vec<String>,
}

#[derive(Debug)]
pub struct NavItem {
    pub title: String,
    pub url: String,
    pub items: Vec<NavItem>,
}

#[derive(Debug)]
pub struct FooterConfig {
    pub text: Option<String>,
    pub links: Vec<NavItem>,
    pub copyright: Option<String>,
}

/// The whole site configuration.
#[derive(Debug)]
pub struct RawConfig {
    pub version: String,
    pub title: String,
    pub description: Option<String>,
    pub favicon: Option<String>,
    pub base_url: Option<String>,
    pub content: ContentConfig,
    pub build: BuildConfig,
    pub template: TemplateConfig,
    pub nav: Vec<NavItem>,
    pub footer: FooterConfig,
    pub custom: Vec<(String, MetaValue)>,
}

/// The default output directory.
pub fn default_output_dir() -> (r: String)
    ensures
        r@ == "dist"@,
{
    String::from_str("dist")
}

/// The default template directory.
pub fn default_template_dir() -> (r: String)
    ensures
        r@ == "templates"@,
{
    String::from_str("templates")
}

/// The default layout template name.
pub fn default_layout() -> (r: String)
    ensures
        r@ == "base.html"@,
{
    String::from_str("base.html")
}

impl Default for ContentConfig {
    fn default() -> (r: ContentConfig)
        ensures
            r.format is None,
            r.extensions is None,
            r.ignore is None,
            !r.drafts,
    {
        ContentConfig { format: None, extensions: None, ignore: None, drafts: false }
    }
}

impl Default for MinifyConfig {
    fn default() -> (r: MinifyConfig)
        ensures
            !r.html && !r.css && !r.js,
    {
        MinifyConfig { html: false, css: false, js: false }
    }
}

impl Default for GenerateConfig {
    fn default() -> (r: GenerateConfig)
        ensures
            !r.sitemap && !r.robots && !r.feed,
    {
        GenerateConfig { sitemap: false, robots: false, feed: false }
    }
}

impl Default for BuildConfig {
    fn default() -> (r: BuildConfig)
        ensures
            r.output_dir@ == "dist"@,
            !r.clean_build,
            !r.minify.html && !r.minify.css && !r.minify.js,
            !r.generate.sitemap && !r.generate.robots && !r.generate.feed,
            !r.strict,
    {
        BuildConfig {
            output_dir: default_output_dir(),
            clean_build: false,
            minify: MinifyConfig::default(),
            generate: GenerateConfig::default(),
            strict: false,
        }
    }
}

impl Default for TemplateConfig {
    fn default() -> (r: TemplateConfig)
        ensures
            r.dir@ == "templates"@,
            r.default_layout@ == "base.html"@,
            r.partials@.len() == 0,
    {
        TemplateConfig {
            dir: default_template_dir(),
            default_layout: default_layout(),
            partials: Vec::new(),
        }
    }
}

impl Default for FooterConfig {
    fn default() -> (r: FooterConfig)
        ensures
            r.text is None,
            r.links@.len() == 0,
            r.copyright is None,
    {
        FooterConfig { text: None, links: Vec::new(), copyright: None }
    }
}

/// The first top-level navigation item with an empty URL, if any.
pub open spec fn first_empty_nav_url(navs: Seq<NavItem>, from: int) -> Option<int>
    decreases navs.len() - from,
{
    if from < 0 || from >= navs.len() {
        None
    } else if navs[from].url@.len() == 0 {
        Some(from)
    } else {
        first_empty_nav_url(navs, from + 1)
    }
}

impl RawConfig {
    /// The configuration is rejected exactly when its version differs from
    /// the expected one, or, in strict mode, when the title is empty or a
    /// top-level navigation item has an empty URL.
    pub fn validate(&self) -> (r: Result<(), RawSSGError>)
        ensures
            self.version@ != spec_config_version() ==> (r matches Err(e) && e
                matches RawSSGError::Config(m) && m@ == "Config version "@ + self.version@
                + " does not match expected version "@ + spec_config_version()),
            self.version@ == spec_config_version() && !self.build.strict ==> r is Ok,
            self.version@ == spec_config_version() && self.build.strict && self.title@.len() == 0
                ==> (r matches Err(e) && e matches RawSSGError::Config(m) && m@
                == "Title is required in strict mode"@),
            self.version@ == spec_config_version() && self.build.strict && self.title@.len() > 0
                ==> match first_empty_nav_url(self.nav@, 0) {
                Some(_) => r matches Err(e) && e matches RawSSGError::Config(_),
                None => r is Ok,
            },
    {
        if !str_eq(self.version.as_str(), config_version()) {
            let mut m = String::new();
            m.append("Config version ");
            m.append(self.version.as_str());
            m.append(" does not match expected version ");
            m.append(config_version());
            return Err(RawSSGError::Config(m));
        }
        if self.build.strict {
            if self.title.as_str().unicode_len() == 0 {
                return Err(
                    RawSSGError::Config(String::from_str("Title is required in strict mode")),
                );
            }
            let n = self.nav.len();
            let mut i: usize = 0;
            while i < n
                invariant
                    i <= n,
                    n == self.nav@.len(),
                    self.version@ == spec_config_version(),
                    self.build.strict,
                    self.title@.len() > 0,
                    first_empty_nav_url(self.nav@, 0) == first_empty_nav_url(self.nav@, i as int),
                decreases n - i,
            {
                if self.nav[i].url.as_str().unicode_len() == 0 {
                    proof {
                        assert(first_empty_nav_url(self.nav@, i as int) == Some(i as int));
                    }
                    return Err(
                        RawSSGError::Config(
                            String::from_str("A navigation item has an empty URL"),
                        ),
                    );
                }
                proof {
                    assert(first_empty_nav_url(self.nav@, i as int) == first_empty_nav_url(
                        self.nav@,
                        i + 1,
                    ));
                }
                i += 1;
            }
            proof {
                assert(first_empty_nav_url(self.nav@, n as int) is None);
            }
        }
        Ok(())
    }

    /// The configuration a fresh project starts from. The copyright year is
    /// ambient data and is handed in by the caller.
    pub fn default_config(copyright_year: &str) -> (r: RawConfig)
        ensures
            r.version@ == spec_config_version(),
            r.title@ == "RawSSG Site"@,
            r.description matches Some(d) && d@ == "A site generated with RawSSG"@,
            r.favicon matches Some(f) && f@ == "favicon.ico"@,
            r.base_url matches Some(u) && u@ == "http://localhost:8080"@,
            r.content.format matches Some(f) && f@ == "plain"@,
            r.content.extensions matches Some(e) && e.deep_view() == seq!["rw"@, "md"@],
            r.content.ignore matches Some(g) && g.deep_view() == seq!["drafts/*"@],
            !r.content.drafts,
            r.build.output_dir@ == "dist"@,
            !r.build.clean_build,
            r.template.dir@ == "templates"@,
            r.template.default_layout@ == "base.html"@,
            r.nav@.len() == 2,
            r.nav@[0].title@ == "Home"@ && r.nav@[0].url@ == "/"@,
            r.nav@[1].title@ == "About"@ && r.nav@[1].url@ == "/about"@,
            r.footer.text matches Some(t) && t@ == "Built with RawSSG"@,
            r.footer.links@.len() == 1 && r.footer.links@[0].title@ == "GitHub"@,
            r.footer.copyright matches Some(c) && c@ == "\u{a9} "@ + copyright_year@
                + " Your Name"@,
            r.custom@.len() == 0,
    {
        let mut extensions: Vec<String> = Vec::new();
        extensions.push(String::from_str("rw"));
        extensions.push(String::from_str("md"));
        proof {
            assert(extensions.deep_view() =~= seq!["rw"@, "md"@]);
        }
        let mut ignore: Vec<String> = Vec::new();
        ignore.push(String::from_str("drafts/*"));
        proof {
            assert(ignore.deep_view() =~= seq!["drafts/*"@]);
        }
        let mut nav: Vec<NavItem> = Vec::new();
        nav.push(
            NavItem { title: String::from_str("Home"), url: String::from_str("/"), items: Vec::new() },
        );
        nav.push(
            NavItem {
                title: String::from_str("About"),
                url: String::from_str("/about"),
                items: Vec::new(),
            },
        );
        let mut links: Vec<NavItem> = Vec::new();
        links.push(
            NavItem {
                title: String::from_str("GitHub"),
                url: String::from_str("https://github.com/neuxdotdev"),
                items: Vec::new(),
            },
        );
        let mut copyright = String::new();
        copyright.append("\u{a9} ");
        copyright.append(copyright_year);
        copyright.append(" Your Name");
        RawConfig {
            version: String::from_str("0.0.2"),
            title: String::from_str("RawSSG Site"),
            description: Some(String::from_str("A site generated with RawSSG")),
            favicon: Some(String::from_str("favicon.ico")),
            base_url: Some(String::from_str("http://localhost:8080")),
            content: ContentConfig {
                format: Some(String::from_str("plain")),
                extensions: Some(extensions),
                ignore: Some(ignore),
                drafts: false,
            },
            build: BuildConfig::default(),
            template: TemplateConfig::default(),
            nav,
            footer: FooterConfig {
                text: Some(String::from_str("Built with RawSSG")),
                links,
                copyright: Some(copyright),
            },
            custom: Vec::new(),
        }
    }
}

} // verus!
