//! The global render context: an immutable snapshot built once per build —
//! the configuration, the build timestamp, and the summary list of
//! non-draft pages — and the page-local data object each render consumes.

use vstd::prelude::*;
use vstd::string::StringExecFns;
use crate::config::{NavItem, RawConfig};
use crate::error::RawSSGError;
use crate::frontmatter::Content;
use crate::meta::{lemma_dict_model, lemma_list_model, pair_models_of, MetaNode, MetaValue};
use crate::template::{hb_output, json_value_of, TemplateEngine};

verus! {

broadcast use vstd::std_specs::vec::group_vec_axioms, vstd::seq::group_seq_axioms;

/// One page's summary in the global context: its effective title, and its
/// declared slug and date when present.
#[derive(Debug)]
pub struct PageSummary {
    pub title: String,
    pub slug: Option<String>,
    pub date: Option<String>,
}

/// The immutable per-build snapshot: the build timestamp and the non-draft
/// page summaries. The configuration rides alongside, read-only.
#[derive(Debug)]
pub struct GlobalContext {
    pub build_time: String,
    pub pages: Vec<PageSummary>,
}

/// The model of a page summary as template data.
pub open spec fn summary_model(s: PageSummary) -> MetaNode {
    MetaNode::Dict(
        seq![("title"@, MetaNode::Str(s.title@))] + (match s.slug {
            Some(g) => seq![("slug"@, MetaNode::Str(g@))],
            None => Seq::empty(),
        }) + (match s.date {
            Some(d) => seq![("date"@, MetaNode::Str(d@))],
            None => Seq::empty(),
        }),
    )
}

/// The model of the page-summary list as template data.
pub open spec fn summaries_model(pages: Seq<PageSummary>) -> MetaNode {
    MetaNode::List(
        Seq::new(
            pages.len(),
            |i: int|
                if 0 <= i < pages.len() {
                    summary_model(pages[i])
                } else {
                    MetaNode::Null
                },
        ),
    )
}

fn meta_of_summary(s: &PageSummary) -> (r: MetaValue)
    ensures
        r.model() == summary_model(*s),
{
    let mut pairs: Vec<(String, MetaValue)> = Vec::new();
    pairs.push((String::from_str("title"), MetaValue::Str(s.title.clone())));
    match &s.slug {
        Some(g) => {
            pairs.push((String::from_str("slug"), MetaValue::Str(g.clone())));
        },
        None => {},
    }
    match &s.date {
        Some(d) => {
            pairs.push((String::from_str("date"), MetaValue::Str(d.clone())));
        },
        None => {},
    }
    let r = MetaValue::Dict(pairs);
    proof {
        lemma_dict_model(r->Dict_0);
        assert(pair_models_of(r->Dict_0@) =~= summary_model(*s)->Dict_0);
    }
    r
}

fn meta_of_summaries(pages: &Vec<PageSummary>) -> (r: MetaValue)
    ensures
        r.model() == summaries_model(pages@),
{
    let mut items: Vec<MetaValue> = Vec::new();
    let n = pages.len();
    let mut i: usize = 0;
    while i < n
        invariant
            i <= n,
            n == pages@.len(),
            items@.len() == i,
            forall|j: int| 0 <= j < i ==> items@[j].model() == summary_model(pages@[j]),
        decreases n - i,
    {
        items.push(meta_of_summary(&pages[i]));
        i += 1;
    }
    let r = MetaValue::List(items);
    proof {
        lemma_list_model(r->List_0);
        assert(crate::meta::models_of(items@) =~= summaries_model(pages@)->List_0);
    }
    r
}

/// The model of an optional string as template data: the string, or null.
pub open spec fn opt_str_model(o: Option<String>) -> MetaNode {
    match o {
        Some(s) => MetaNode::Str(s@),
        None => MetaNode::Null,
    }
}

fn meta_of_opt_string(o: &Option<String>) -> (r: MetaValue)
    ensures
        r.model() == opt_str_model(*o),
{
    match o {
        Some(s) => MetaValue::Str(s.clone()),
        None => MetaValue::Null,
    }
}

/// The model of a string list as template data.
pub open spec fn str_list_model(v: Seq<String>) -> MetaNode {
    MetaNode::List(
        Seq::new(
            v.len(),
            |i: int|
                if 0 <= i < v.len() {
                    MetaNode::Str(v[i]@)
                } else {
                    MetaNode::Null
                },
        ),
    )
}

fn meta_of_strings(v: &Vec<String>) -> (r: MetaValue)
    ensures
        r.model() == str_list_model(v@),
{
    let mut items: Vec<MetaValue> = Vec::new();
    let n = v.len();
    let mut i: usize = 0;
    while i < n
        invariant
            i <= n,
            n == v@.len(),
            items@.len() == i,
            forall|j: int| 0 <= j < i ==> items@[j].model() == MetaNode::Str(v@[j]@),
        decreases n - i,
    {
        items.push(MetaValue::Str(v[i].clone()));
        i += 1;
    }
    let r = MetaValue::List(items);
    proof {
        lemma_list_model(r->List_0);
        assert(crate::meta::models_of(items@) =~= str_list_model(v@)->List_0);
    }
    r
}

/// The model of an optional string list: the list, or null.
pub open spec fn opt_str_list_model(o: Option<Vec<String>>) -> MetaNode {
    match o {
        Some(v) => str_list_model(v@),
        None => MetaNode::Null,
    }
}

fn meta_of_opt_strings(o: &Option<Vec<String>>) -> (r: MetaValue)
    ensures
        r.model() == opt_str_list_model(*o),
{
    match o {
        Some(v) => meta_of_strings(v),
        None => MetaValue::Null,
    }
}

/// The model of a navigation item as template data: its title, URL and
/// nested items.
pub open spec fn nav_model(n: NavItem) -> MetaNode
    decreases n,
{
    MetaNode::Dict(
        seq![
            ("title"@, MetaNode::Str(n.title@)),
            ("url"@, MetaNode::Str(n.url@)),
            (
                "items"@,
                MetaNode::List(
                    Seq::new(
                        n.items@.len(),
                        |i: int|
                            if 0 <= i < n.items@.len() {
                                nav_model(n.items@[i])
                            } else {
                                MetaNode::Null
                            },
                    ),
                ),
            ),
        ],
    )
}

/// The model of a navigation list.
pub open spec fn nav_list_model(items: Seq<NavItem>) -> MetaNode {
    MetaNode::List(
        Seq::new(
            items.len(),
            |i: int|
                if 0 <= i < items.len() {
                    nav_model(items[i])
                } else {
                    MetaNode::Null
                },
        ),
    )
}

fn meta_of_nav(n: &NavItem) -> (r: MetaValue)
    ensures
        r.model() == nav_model(*n),
    decreases *n,
{
    let mut items: Vec<MetaValue> = Vec::new();
    let cnt = n.items.len();
    let mut i: usize = 0;
    while i < cnt
        invariant
            i <= cnt,
            cnt == n.items@.len(),
            items@.len() == i,
            forall|j: int| 0 <= j < i ==> items@[j].model() == nav_model(n.items@[j]),
        decreases cnt - i,
    {
        proof {
            assert(decreases_to!(*n => n.items));
            assert(decreases_to!(n.items => n.items@));
            assert(decreases_to!(n.items@ => n.items@[i as int]));
        }
        items.push(meta_of_nav(&n.items[i]));
        i += 1;
    }
    let mut pairs: Vec<(String, MetaValue)> = Vec::new();
    pairs.push((String::from_str("title"), MetaValue::Str(n.title.clone())));
    pairs.push((String::from_str("url"), MetaValue::Str(n.url.clone())));
    pairs.push((String::from_str("items"), MetaValue::List(items)));
    let r = MetaValue::Dict(pairs);
    proof {
        lemma_dict_model(r->Dict_0);
        lemma_list_model(pairs@[2].1->List_0);
        assert(pairs@[2].1.model() == nav_model(*n)->Dict_0[2].1) by {
            assert(crate::meta::models_of(items@) =~= nav_model(*n)->Dict_0[2].1->List_0);
        }
        assert(pair_models_of(r->Dict_0@) =~= nav_model(*n)->Dict_0);
    }
    r
}

fn meta_of_navs(items: &Vec<NavItem>) -> (r: MetaValue)
    ensures
        r.model() == nav_list_model(items@),
{
    let mut vals: Vec<MetaValue> = Vec::new();
    let n = items.len();
    let mut i: usize = 0;
    while i < n
        invariant
            i <= n,
            n == items@.len(),
            vals@.len() == i,
            forall|j: int| 0 <= j < i ==> vals@[j].model() == nav_model(items@[j]),
        decreases n - i,
    {
        vals.push(meta_of_nav(&items[i]));
        i += 1;
    }
    let r = MetaValue::List(vals);
    proof {
        lemma_list_model(r->List_0);
        assert(crate::meta::models_of(vals@) =~= nav_list_model(items@)->List_0);
    }
    r
}

/// The model of the configuration as template data: every field under its
/// serialized name, absent options as null.
pub open spec fn config_model(c: RawConfig) -> MetaNode {
    MetaNode::Dict(
        seq![
            ("version"@, MetaNode::Str(c.version@)),
            ("title"@, MetaNode::Str(c.title@)),
            ("description"@, opt_str_model(c.description)),
            ("favicon"@, opt_str_model(c.favicon)),
            ("base-url"@, opt_str_model(c.base_url)),
            (
                "content"@,
                MetaNode::Dict(
                    seq![
                        ("format"@, opt_str_model(c.content.format)),
                        ("extensions"@, opt_str_list_model(c.content.extensions)),
                        ("ignore"@, opt_str_list_model(c.content.ignore)),
                        ("drafts"@, MetaNode::Bool(c.content.drafts)),
                    ],
                ),
            ),
            (
                "build"@,
                MetaNode::Dict(
                    seq![
                        ("output-dir"@, MetaNode::Str(c.build.output_dir@)),
                        ("clean-build"@, MetaNode::Bool(c.build.clean_build)),
                        (
                            "minify"@,
                            MetaNode::Dict(
                                seq![
                                    ("html"@, MetaNode::Bool(c.build.minify.html)),
                                    ("css"@, MetaNode::Bool(c.build.minify.css)),
                                    ("js"@, MetaNode::Bool(c.build.minify.js)),
                                ],
                            ),
                        ),
                        (
                            "generate"@,
                            MetaNode::Dict(
                                seq![
                                    ("sitemap"@, MetaNode::Bool(c.build.generate.sitemap)),
                                    ("robots"@, MetaNode::Bool(c.build.generate.robots)),
                                    ("feed"@, MetaNode::Bool(c.build.generate.feed)),
                                ],
                            ),
                        ),
                        ("strict"@, MetaNode::Bool(c.build.strict)),
                    ],
                ),
            ),
            (
                "template"@,
                MetaNode::Dict(
                    seq![
                        ("dir"@, MetaNode::Str(c.template.dir@)),
                        ("default_layout"@, MetaNode::Str(c.template.default_layout@)),
                        ("partials"@, str_list_model(c.template.partials@)),
                    ],
                ),
            ),
            ("nav"@, nav_list_model(c.nav@)),
            (
                "footer"@,
                MetaNode::Dict(
                    seq![
                        ("text"@, opt_str_model(c.footer.text)),
                        ("links"@, nav_list_model(c.footer.links@)),
                        ("copyright"@, opt_str_model(c.footer.copyright)),
                    ],
                ),
            ),
            ("custom"@, MetaNode::Dict(pair_models_of(c.custom@))),
        ],
    )
}

fn dup_custom(custom: &Vec<(String, MetaValue)>) -> (r: Vec<(String, MetaValue)>)
    ensures
        pair_models_of(r@) == pair_models_of(custom@),
{
    let mut out: Vec<(String, MetaValue)> = Vec::new();
    let n = custom.len();
    let mut i: usize = 0;
    while i < n
        invariant
            i <= n,
            n == custom@.len(),
            out@.len() == i,
            forall|j: int|
                0 <= j < i ==> out@[j].0@ == custom@[j].0@ && out@[j].1.model()
                    == custom@[j].1.model(),
        decreases n - i,
    {
        let (k, v) = &custom[i];
        out.push((k.clone(), v.duplicate()));
        i += 1;
    }
    proof {
        assert(pair_models_of(out@) =~= pair_models_of(custom@));
    }
    out
}

/// The configuration as template data.
pub fn meta_of_config(c: &RawConfig) -> (r: MetaValue)
    ensures
        r.model() == config_model(*c),
{
    let mut content_pairs: Vec<(String, MetaValue)> = Vec::new();
    content_pairs.push((String::from_str("format"), meta_of_opt_string(&c.content.format)));
    content_pairs.push((String::from_str("extensions"), meta_of_opt_strings(&c.content.extensions)));
    content_pairs.push((String::from_str("ignore"), meta_of_opt_strings(&c.content.ignore)));
    content_pairs.push((String::from_str("drafts"), MetaValue::Bool(c.content.drafts)));
    let content_meta = MetaValue::Dict(content_pairs);

    let mut minify_pairs: Vec<(String, MetaValue)> = Vec::new();
    minify_pairs.push((String::from_str("html"), MetaValue::Bool(c.build.minify.html)));
    minify_pairs.push((String::from_str("css"), MetaValue::Bool(c.build.minify.css)));
    minify_pairs.push((String::from_str("js"), MetaValue::Bool(c.build.minify.js)));
    let minify_meta = MetaValue::Dict(minify_pairs);

    let mut gen_pairs: Vec<(String, MetaValue)> = Vec::new();
    gen_pairs.push((String::from_str("sitemap"), MetaValue::Bool(c.build.generate.sitemap)));
    gen_pairs.push((String::from_str("robots"), MetaValue::Bool(c.build.generate.robots)));
    gen_pairs.push((String::from_str("feed"), MetaValue::Bool(c.build.generate.feed)));
    let gen_meta = MetaValue::Dict(gen_pairs);

    let mut build_pairs: Vec<(String, MetaValue)> = Vec::new();
    build_pairs.push((String::from_str("output-dir"), MetaValue::Str(c.build.output_dir.clone())));
    build_pairs.push((String::from_str("clean-build"), MetaValue::Bool(c.build.clean_build)));
    build_pairs.push((String::from_str("minify"), minify_meta));
    build_pairs.push((String::from_str("generate"), gen_meta));
    build_pairs.push((String::from_str("strict"), MetaValue::Bool(c.build.strict)));
    let build_meta = MetaValue::Dict(build_pairs);

    let mut tpl_pairs: Vec<(String, MetaValue)> = Vec::new();
    tpl_pairs.push((String::from_str("dir"), MetaValue::Str(c.template.dir.clone())));
    tpl_pairs.push(
        (String::from_str("default_layout"), MetaValue::Str(c.template.default_layout.clone())),
    );
    tpl_pairs.push((String::from_str("partials"), meta_of_strings(&c.template.partials)));
    let tpl_meta = MetaValue::Dict(tpl_pairs);

    let mut footer_pairs: Vec<(String, MetaValue)> = Vec::new();
    footer_pairs.push((String::from_str("text"), meta_of_opt_string(&c.footer.text)));
    footer_pairs.push((String::from_str("links"), meta_of_navs(&c.footer.links)));
    footer_pairs.push((String::from_str("copyright"), meta_of_opt_string(&c.footer.copyright)));
    let footer_meta = MetaValue::Dict(footer_pairs);

    let mut pairs: Vec<(String, MetaValue)> = Vec::new();
    pairs.push((String::from_str("version"), MetaValue::Str(c.version.clone())));
    pairs.push((String::from_str("title"), MetaValue::Str(c.title.clone())));
    pairs.push((String::from_str("description"), meta_of_opt_string(&c.description)));
    pairs.push((String::from_str("favicon"), meta_of_opt_string(&c.favicon)));
    pairs.push((String::from_str("base-url"), meta_of_opt_string(&c.base_url)));
    pairs.push((String::from_str("content"), content_meta));
    pairs.push((String::from_str("build"), build_meta));
    pairs.push((String::from_str("template"), tpl_meta));
    pairs.push((String::from_str("nav"), meta_of_navs(&c.nav)));
    pairs.push((String::from_str("footer"), footer_meta));
    pairs.push((String::from_str("custom"), MetaValue::Dict(dup_custom(&c.custom))));
    let r = MetaValue::Dict(pairs);
    proof {
        lemma_dict_model(r->Dict_0);
        lemma_dict_model(pairs@[5].1->Dict_0);
        lemma_dict_model(pairs@[6].1->Dict_0);
        lemma_dict_model(build_pairs@[2].1->Dict_0);
        lemma_dict_model(build_pairs@[3].1->Dict_0);
        lemma_dict_model(pairs@[7].1->Dict_0);
        lemma_dict_model(pairs@[9].1->Dict_0);
        lemma_dict_model(pairs@[10].1->Dict_0);
        assert(pair_models_of(content_pairs@) =~= config_model(*c)->Dict_0[5].1->Dict_0);
        assert(pair_models_of(minify_pairs@) =~= config_model(*c)->Dict_0[6].1->Dict_0[2].1->Dict_0);
        assert(pair_models_of(gen_pairs@) =~= config_model(*c)->Dict_0[6].1->Dict_0[3].1->Dict_0);
        assert(pair_models_of(build_pairs@) =~= config_model(*c)->Dict_0[6].1->Dict_0);
        assert(pair_models_of(tpl_pairs@) =~= config_model(*c)->Dict_0[7].1->Dict_0);
        assert(pair_models_of(footer_pairs@) =~= config_model(*c)->Dict_0[9].1->Dict_0);
        assert(pair_models_of(pairs@) =~= config_model(*c)->Dict_0);
    }
    r
}

/// The model of the page-local data object a render consumes: the body
/// under `content`; the title and date when present; every custom
/// metadata key; the configuration snapshot, the build timestamp and the
/// page summaries of the global context; and the caller-supplied current
/// URL last, so it takes precedence over same-named keys.
pub open spec fn render_data_model(
    c: Content,
    config: RawConfig,
    ctx: GlobalContext,
    current_url: Option<String>,
) -> MetaNode {
    MetaNode::Dict(
        seq![("content"@, MetaNode::Str(c.body@))] + (match c.frontmatter.title {
            Some(t) => seq![("title"@, MetaNode::Str(t@))],
            None => Seq::empty(),
        }) + (match c.frontmatter.date {
            Some(d) => seq![("date"@, MetaNode::Str(d@))],
            None => Seq::empty(),
        }) + pair_models_of(c.frontmatter.custom@) + seq![
            ("config"@, config_model(config)),
            ("build_time"@, MetaNode::Str(ctx.build_time@)),
            ("pages"@, summaries_model(ctx.pages@)),
        ] + (match current_url {
            Some(u) => seq![("current_url"@, MetaNode::Str(u@))],
            None => Seq::empty(),
        }),
    )
}

/// Builds the page-local data object.
pub fn render_data(
    c: &Content,
    config: &RawConfig,
    ctx: &GlobalContext,
    current_url: Option<&String>,
) -> (r: MetaValue)
    ensures
        r.model() == render_data_model(
            *c,
            *config,
            *ctx,
            match current_url {
                Some(u) => Some(*u),
                None => None,
            },
        ),
{
    let mut pairs: Vec<(String, MetaValue)> = Vec::new();
    pairs.push((String::from_str("content"), MetaValue::Str(c.body.clone())));
    match &c.frontmatter.title {
        Some(t) => {
            pairs.push((String::from_str("title"), MetaValue::Str(t.clone())));
        },
        None => {},
    }
    match &c.frontmatter.date {
        Some(d) => {
            pairs.push((String::from_str("date"), MetaValue::Str(d.clone())));
        },
        None => {},
    }
    let mut custom = dup_custom(&c.frontmatter.custom);
    let ghost head = pairs@;
    pairs.append(&mut custom);
    proof {
        assert(pair_models_of(pairs@) =~= pair_models_of(head) + pair_models_of(
            c.frontmatter.custom@,
        ));
    }
    pairs.push((String::from_str("config"), meta_of_config(config)));
    pairs.push((String::from_str("build_time"), MetaValue::Str(ctx.build_time.clone())));
    pairs.push((String::from_str("pages"), meta_of_summaries(&ctx.pages)));
    match current_url {
        Some(u) => {
            pairs.push((String::from_str("current_url"), MetaValue::Str(u.clone())));
        },
        None => {},
    }
    let r = MetaValue::Dict(pairs);
    proof {
        lemma_dict_model(r->Dict_0);
        assert(pair_models_of(r->Dict_0@) =~= render_data_model(
            *c,
            *config,
            *ctx,
            match current_url {
                Some(u) => Some(*u),
                None => None,
            },
        )->Dict_0);
    }
    r
}

impl TemplateEngine {
    /// Renders a page: the data object is built from the page, the
    /// configuration and the global context, the template is resolved, and
    /// the engine executes it on the data.
    pub fn render_content(
        &self,
        c: &Content,
        config: &RawConfig,
        ctx: &GlobalContext,
        current_url: Option<&String>,
    ) -> (r: Result<String, RawSSGError>)
        ensures
            ({
                let name = self.spec_resolve(*c, config.template.default_layout@);
                let text = crate::json::spec_json_meta(
                    render_data_model(
                        *c,
                        *config,
                        *ctx,
                        match current_url {
                            Some(u) => Some(*u),
                            None => None,
                        },
                    ),
                );
                match json_value_of(text) {
                    Some(v) => match hb_output(self.hb, name, v) {
                        Ok(s) => r matches Ok(out) && out@ == s,
                        Err(_) => r matches Err(e) && e matches RawSSGError::Render(_),
                    },
                    None => r matches Err(e) && e matches RawSSGError::Json(_),
                }
            }),
    {
        let data = render_data(c, config, ctx, current_url);
        let mut out: Vec<char> = Vec::new();
        crate::json::push_json_meta(&mut out, &data);
        let text = crate::text::string_from_chars(&out);
        let name = self.resolve(c, config.template.default_layout.as_str());
        self.render(name.as_str(), text.as_str())
    }

    /// Minifies rendered markup when minification is enabled.
    pub fn minify_html(&self, html: &str, enabled: bool) -> (r: String)
        ensures
            r@ == crate::minify::spec_minify(html@, enabled),
    {
        crate::minify::minify_text(html, enabled)
    }
}

} // verus!
