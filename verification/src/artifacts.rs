//! The artifact generators: the sitemap, the RSS feed, the robots policy
//! and the build metadata document, each rendered as exact text from the
//! final page set.

use vstd::prelude::*;
use vstd::string::StringExecFns;
use crate::date::{
    iso_date_of, lemma_iso_date_valid, parse_iso_date, spec_pad2, spec_pad4,
    spec_rfc2822_midnight, format_rfc2822_midnight,
};
use crate::frontmatter::Content;
use crate::meta::{lemma_dict_model, pair_models_of, MetaNode, MetaValue};
use crate::text::{push_chars, push_str_chars, string_from_chars};

verus! {

broadcast use vstd::std_specs::vec::group_vec_axioms, vstd::seq::group_seq_axioms;

/// The XML escape of one character: the markup-significant characters
/// become entities, every other character stands for itself.
pub open spec fn xml_escape_char(c: char) -> Seq<char> {
    if c == '&' {
        "&amp;"@
    } else if c == '<' {
        "&lt;"@
    } else if c == '>' {
        "&gt;"@
    } else {
        seq![c]
    }
}

/// The XML escape of a text.
pub open spec fn spec_xml_escape(s: Seq<char>) -> Seq<char>
    decreases s.len(),
{
    if s.len() == 0 {
        Seq::empty()
    } else {
        xml_escape_char(s[0]) + spec_xml_escape(s.drop_first())
    }
}

proof fn lemma_xml_escape_snoc(s: Seq<char>, c: char)
    ensures
        spec_xml_escape(s.push(c)) == spec_xml_escape(s) + xml_escape_char(c),
    decreases s.len(),
{
    if s.len() == 0 {
        assert(s.push(c)[0] == c);
        assert(s.push(c).drop_first() =~= Seq::<char>::empty());
        assert(spec_xml_escape(Seq::<char>::empty()) =~= Seq::<char>::empty());
        assert(spec_xml_escape(s.push(c)) =~= spec_xml_escape(s) + xml_escape_char(c));
    } else {
        assert(s.push(c).drop_first() =~= s.drop_first().push(c));
        lemma_xml_escape_snoc(s.drop_first(), c);
        assert(spec_xml_escape(s.push(c)) =~= spec_xml_escape(s) + xml_escape_char(c));
    }
}

/// Appends the XML escape of the characters of `t`.
fn push_xml_escaped(out: &mut Vec<char>, t: &Vec<char>)
    ensures
        final(out)@ == old(out)@ + spec_xml_escape(t@),
{
    let n = t.len();
    let mut i: usize = 0;
    proof {
        assert(t@.subrange(0, 0) =~= Seq::<char>::empty());
        assert(out@ =~= old(out)@ + spec_xml_escape(t@.subrange(0, 0)));
    }
    while i < n
        invariant
            i <= n,
            n == t@.len(),
            out@ == old(out)@ + spec_xml_escape(t@.subrange(0, i as int)),
        decreases n - i,
    {
        let c = t[i];
        if c == '&' {
            push_str_chars(out, "&amp;");
        } else if c == '<' {
            push_str_chars(out, "&lt;");
        } else if c == '>' {
            push_str_chars(out, "&gt;");
        } else {
            out.push(c);
        }
        proof {
            assert(t@.subrange(0, i as int).push(t@[i as int]) =~= t@.subrange(0, i + 1));
            lemma_xml_escape_snoc(t@.subrange(0, i as int), t@[i as int]);
            assert(out@ =~= old(out)@ + spec_xml_escape(t@.subrange(0, i + 1)));
        }
        i += 1;
    }
    proof {
        assert(t@.subrange(0, n as int) =~= t@);
    }
}

/// A page's absolute URL: the site root for the slug `index`, a same-named
/// subdirectory otherwise.
pub open spec fn spec_page_url(c: Content, base: Seq<char>) -> Seq<char> {
    if c.spec_slug() == "index"@ {
        base + "/"@
    } else {
        base + "/"@ + c.spec_slug() + "/"@
    }
}

fn page_url_chars(c: &Content, base: &str) -> (r: Vec<char>)
    ensures
        r@ == spec_page_url(*c, base@),
{
    let slug = c.slug();
    let mut out: Vec<char> = Vec::new();
    push_str_chars(&mut out, base);
    push_str_chars(&mut out, "/");
    if !crate::text::str_eq(slug.as_str(), "index") {
        push_str_chars(&mut out, slug.as_str());
        push_str_chars(&mut out, "/");
    }
    proof {
        assert(out@ =~= spec_page_url(*c, base@));
    }
    out
}

/// One sitemap entry: the page's location, and its last modification when
/// the page's date is an ISO calendar date.
pub open spec fn spec_sitemap_entry(c: Content, base: Seq<char>) -> Seq<char> {
    "  <url>\n    <loc>"@ + spec_page_url(c, base) + "</loc>\n"@ + (match c.frontmatter.date {
        Some(d) => match iso_date_of(d@) {
            Some(ymd) => "    <lastmod>"@ + spec_pad4(ymd.0) + "-"@ + spec_pad2(ymd.1) + "-"@
                + spec_pad2(ymd.2) + "</lastmod>\n"@,
            None => Seq::empty(),
        },
        None => Seq::empty(),
    }) + "  </url>\n"@
}

/// The sitemap entries of the non-skipped pages from position `i` on.
pub open spec fn spec_sitemap_entries(
    pages: Seq<Content>,
    base: Seq<char>,
    show_drafts: bool,
    i: int,
) -> Seq<char>
    decreases pages.len() - i,
{
    if i < 0 || i >= pages.len() {
        Seq::empty()
    } else if pages[i].spec_should_skip(show_drafts) {
        spec_sitemap_entries(pages, base, show_drafts, i + 1)
    } else {
        spec_sitemap_entry(pages[i], base) + spec_sitemap_entries(pages, base, show_drafts, i + 1)
    }
}

/// The whole sitemap document.
pub open spec fn spec_sitemap(pages: Seq<Content>, base: Seq<char>, show_drafts: bool) -> Seq<
    char,
> {
    "<?xml version=\"1.0\" encoding=\"UTF-8\"?>\n<urlset xmlns=\"http://www.sitemaps.org/schemas/sitemap/0.9\">\n"@
        + spec_sitemap_entries(pages, base, show_drafts, 0) + "</urlset>"@
}

/// Renders the sitemap: one entry per non-draft page, in the given order.
pub fn generate_sitemap(pages: &Vec<Content>, base: &str, show_drafts: bool) -> (r: String)
    ensures
        r@ == spec_sitemap(pages@, base@, show_drafts),
{
    let mut out: Vec<char> = Vec::new();
    push_str_chars(
        &mut out,
        "<?xml version=\"1.0\" encoding=\"UTF-8\"?>\n<urlset xmlns=\"http://www.sitemaps.org/schemas/sitemap/0.9\">\n",
    );
    let ghost head = out@;
    let n = pages.len();
    let mut i: usize = 0;
    proof {
        assert(out@ =~= head + Seq::<char>::empty());
    }
    while i < n
        invariant
            i <= n,
            n == pages@.len(),
            head + spec_sitemap_entries(pages@, base@, show_drafts, 0) == out@
                + spec_sitemap_entries(pages@, base@, show_drafts, i as int),
        decreases n - i,
    {
        let page = &pages[i];
        if !page.should_skip(show_drafts) {
            let ghost before = out@;
            push_str_chars(&mut out, "  <url>\n    <loc>");
            let url = page_url_chars(page, base);
            push_chars(&mut out, &url);
            push_str_chars(&mut out, "</loc>\n");
            match &page.frontmatter.date {
                Some(d) => {
                    match parse_iso_date(d.as_str()) {
                        Some((y, m, dd)) => {
                            proof {
                                lemma_iso_date_valid(d@);
                            }
                            push_str_chars(&mut out, "    <lastmod>");
                            crate::date::push_pad4(&mut out, y);
                            push_str_chars(&mut out, "-");
                            crate::date::push_pad2(&mut out, m);
                            push_str_chars(&mut out, "-");
                            crate::date::push_pad2(&mut out, dd);
                            push_str_chars(&mut out, "</lastmod>\n");
                        },
                        None => {},
                    }
                },
                None => {},
            }
            push_str_chars(&mut out, "  </url>\n");
            proof {
                assert(out@ =~= before + spec_sitemap_entry(pages@[i as int], base@));
                assert(spec_sitemap_entries(pages@, base@, show_drafts, i as int)
                    == spec_sitemap_entry(pages@[i as int], base@) + spec_sitemap_entries(
                    pages@,
                    base@,
                    show_drafts,
                    i + 1,
                ));
                assert(out@ + spec_sitemap_entries(pages@, base@, show_drafts, i + 1) =~= before
                    + spec_sitemap_entries(pages@, base@, show_drafts, i as int));
            }
        }
        i += 1;
    }
    push_str_chars(&mut out, "</urlset>");
    proof {
        assert(spec_sitemap_entries(pages@, base@, show_drafts, n as int) =~= Seq::<char>::empty());
        assert(out@ =~= spec_sitemap(pages@, base@, show_drafts));
    }
    string_from_chars(&out)
}

/// A feed item's link: the base URL itself for the slug `index`, the
/// page's subdirectory otherwise.
pub open spec fn spec_feed_link(c: Content, base: Seq<char>) -> Seq<char> {
    if c.spec_slug() == "index"@ {
        base
    } else {
        base + "/"@ + c.spec_slug() + "/"@
    }
}

/// One feed item: title, link, the publication date when the page's date
/// is an ISO calendar date, and a description from the first 200
/// characters of the body, XML-escaped.
pub open spec fn spec_feed_item(c: Content, base: Seq<char>) -> Seq<char> {
    "    <item>\n      <title>"@ + c.spec_title() + "</title>\n      <link>"@
        + spec_feed_link(c, base) + "</link>\n"@ + (match c.frontmatter.date {
        Some(d) => match iso_date_of(d@) {
            Some(ymd) => "      <pubDate>"@ + spec_rfc2822_midnight(ymd.0, ymd.1, ymd.2)
                + "</pubDate>\n"@,
            None => Seq::empty(),
        },
        None => Seq::empty(),
    }) + "      <description>"@ + spec_xml_escape(
        c.body@.subrange(
            0,
            if c.body@.len() < 200 {
                c.body@.len() as int
            } else {
                200
            },
        ),
    ) + "</description>\n    </item>\n"@
}

/// The feed items: the first ten non-skipped pages from position `i` on,
/// `taken` already emitted.
pub open spec fn spec_feed_items(
    pages: Seq<Content>,
    base: Seq<char>,
    show_drafts: bool,
    i: int,
    taken: int,
) -> Seq<char>
    decreases pages.len() - i,
{
    if i < 0 || i >= pages.len() || taken >= 10 {
        Seq::empty()
    } else if pages[i].spec_should_skip(show_drafts) {
        spec_feed_items(pages, base, show_drafts, i + 1, taken)
    } else {
        spec_feed_item(pages[i], base) + spec_feed_items(pages, base, show_drafts, i + 1, taken + 1)
    }
}

/// The feed's channel header.
pub open spec fn spec_feed_head(
    title: Seq<char>,
    description: Option<String>,
    base: Seq<char>,
    build_time_rfc2822: Seq<char>,
) -> Seq<char> {
    "<?xml version=\"1.0\" encoding=\"UTF-8\"?>\n<rss version=\"2.0\">\n  <channel>\n    <title>"@
        + title + "</title>\n"@ + (match description {
        Some(d) => "    <description>"@ + d@ + "</description>\n"@,
        None => Seq::empty(),
    }) + "    <link>"@ + base + "</link>\n    <lastBuildDate>"@ + build_time_rfc2822
        + "</lastBuildDate>\n"@
}

/// The whole feed document.
pub open spec fn spec_feed(
    pages: Seq<Content>,
    title: Seq<char>,
    description: Option<String>,
    base: Seq<char>,
    build_time_rfc2822: Seq<char>,
    show_drafts: bool,
) -> Seq<char> {
    spec_feed_head(title, description, base, build_time_rfc2822) + spec_feed_items(
        pages,
        base,
        show_drafts,
        0,
        0,
    ) + "  </channel>\n</rss>"@
}

/// Appends one feed item.
#[verifier::rlimit(60)]
fn push_feed_item(out: &mut Vec<char>, page: &Content, base: &str)
    ensures
        final(out)@ == old(out)@ + spec_feed_item(*page, base@),
{
    push_str_chars(out, "    <item>\n      <title>");
    let t = page.title_or_stem();
    push_str_chars(out, t.as_str());
    push_str_chars(out, "</title>\n      <link>");
    let slug = page.slug();
    if crate::text::str_eq(slug.as_str(), "index") {
        push_str_chars(out, base);
    } else {
        push_str_chars(out, base);
        push_str_chars(out, "/");
        push_str_chars(out, slug.as_str());
        push_str_chars(out, "/");
    }
    push_str_chars(out, "</link>\n");
    match &page.frontmatter.date {
        Some(d) => {
            match parse_iso_date(d.as_str()) {
                Some((y, m, dd)) => {
                    proof {
                        lemma_iso_date_valid(d@);
                    }
                    push_str_chars(out, "      <pubDate>");
                    let pd = format_rfc2822_midnight(y, m, dd);
                    push_str_chars(out, pd.as_str());
                    push_str_chars(out, "</pubDate>\n");
                },
                None => {},
            }
        },
        None => {},
    }
    push_str_chars(out, "      <description>");
    let body_chars = crate::text::chars_of(page.body.as_str());
    let blen = body_chars.len();
    let cut: usize = if blen < 200 {
        blen
    } else {
        200
    };
    let excerpt = crate::text::sub_chars(&body_chars, 0, cut);
    push_xml_escaped(out, &excerpt);
    push_str_chars(out, "</description>\n    </item>\n");
    proof {
        assert(out@ =~= old(out)@ + spec_feed_item(*page, base@));
    }
}

/// Renders the RSS feed: channel metadata from the configuration, then up
/// to the first ten non-draft pages, in the given order.
pub fn generate_feed(
    pages: &Vec<Content>,
    title: &str,
    description: &Option<String>,
    base: &str,
    build_time_rfc2822: &str,
    show_drafts: bool,
) -> (r: String)
    ensures
        r@ == spec_feed(
            pages@,
            title@,
            *description,
            base@,
            build_time_rfc2822@,
            show_drafts,
        ),
{
    let mut out: Vec<char> = Vec::new();
    push_str_chars(
        &mut out,
        "<?xml version=\"1.0\" encoding=\"UTF-8\"?>\n<rss version=\"2.0\">\n  <channel>\n    <title>",
    );
    push_str_chars(&mut out, title);
    push_str_chars(&mut out, "</title>\n");
    match description {
        Some(d) => {
            push_str_chars(&mut out, "    <description>");
            push_str_chars(&mut out, d.as_str());
            push_str_chars(&mut out, "</description>\n");
        },
        None => {},
    }
    push_str_chars(&mut out, "    <link>");
    push_str_chars(&mut out, base);
    push_str_chars(&mut out, "</link>\n    <lastBuildDate>");
    push_str_chars(&mut out, build_time_rfc2822);
    push_str_chars(&mut out, "</lastBuildDate>\n");
    let ghost head = out@;
    proof {
        assert(head =~= spec_feed_head(title@, *description, base@, build_time_rfc2822@));
    }
    let n = pages.len();
    let mut i: usize = 0;
    let mut taken: usize = 0;
    proof {
        assert(out@ =~= head + Seq::<char>::empty());
    }
    while i < n
        invariant
            i <= n,
            n == pages@.len(),
            taken <= 10,
            head + spec_feed_items(pages@, base@, show_drafts, 0, 0) == out@ + spec_feed_items(
                pages@,
                base@,
                show_drafts,
                i as int,
                taken as int,
            ),
        decreases n - i,
    {
        if taken >= 10 {
            proof {
                assert(spec_feed_items(pages@, base@, show_drafts, i as int, taken as int)
                    =~= Seq::<char>::empty());
                assert(spec_feed_items(pages@, base@, show_drafts, n as int, taken as int)
                    =~= Seq::<char>::empty());
            }
            i = n;
        } else {
            let page = &pages[i];
            if !page.should_skip(show_drafts) {
                let ghost before = out@;
                push_feed_item(&mut out, page, base);
                proof {
                    assert(spec_feed_items(pages@, base@, show_drafts, i as int, taken as int)
                        == spec_feed_item(pages@[i as int], base@) + spec_feed_items(
                        pages@,
                        base@,
                        show_drafts,
                        i + 1,
                        taken + 1,
                    ));
                    assert(out@ + spec_feed_items(pages@, base@, show_drafts, i + 1, taken + 1)
                        =~= before + spec_feed_items(
                        pages@,
                        base@,
                        show_drafts,
                        i as int,
                        taken as int,
                    ));
                }
                taken += 1;
            }
            i += 1;
        }
    }
    proof {
        assert(spec_feed_items(pages@, base@, show_drafts, n as int, taken as int) =~= Seq::<
            char,
        >::empty());
    }
    push_str_chars(&mut out, "  </channel>\n</rss>");
    proof {
        assert(out@ =~= spec_feed(
            pages@,
            title@,
            *description,
            base@,
            build_time_rfc2822@,
            show_drafts,
        ));
    }
    string_from_chars(&out)
}

/// The number of trailing slashes of `s`.
pub open spec fn trailing_slashes(s: Seq<char>) -> int
    decreases s.len(),
{
    if s.len() > 0 && s.last() == '/' {
        1 + trailing_slashes(s.drop_last())
    } else {
        0
    }
}

/// `s` with every trailing slash removed.
pub open spec fn spec_trim_end_slashes(s: Seq<char>) -> Seq<char> {
    s.subrange(0, s.len() - trailing_slashes(s))
}

proof fn lemma_trailing_slashes_suffix(s: Seq<char>, k: int)
    requires
        0 <= k <= s.len(),
        forall|j: int| s.len() - k <= j < s.len() ==> s[j] == '/',
        k < s.len() ==> s[s.len() - k - 1] != '/',
    ensures
        trailing_slashes(s) == k,
    decreases k,
{
    if k == 0 {
    } else {
        assert(s.last() == '/');
        lemma_trailing_slashes_suffix(s.drop_last(), k - 1);
    }
}

/// The robots policy: a fixed two-line allow-all policy and the sitemap's
/// address under the base URL, its trailing slashes removed.
pub open spec fn spec_robots(base: Seq<char>) -> Seq<char> {
    "User-agent: *\nAllow: /\n\nSitemap: "@ + spec_trim_end_slashes(base) + "/sitemap.xml"@
}

/// Renders the robots policy.
pub fn generate_robots(base: &str) -> (r: String)
    ensures
        r@ == spec_robots(base@),
{
    let t = crate::text::chars_of(base);
    let n = t.len();
    let mut hi: usize = n;
    while hi > 0 && t[hi - 1] == '/'
        invariant
            hi <= n,
            n == t@.len(),
            forall|j: int| hi <= j < n ==> t@[j] == '/',
        decreases hi,
    {
        hi -= 1;
    }
    proof {
        lemma_trailing_slashes_suffix(t@, n - hi as int);
    }
    let trimmed = crate::text::sub_chars(&t, 0, hi);
    let mut out: Vec<char> = Vec::new();
    push_str_chars(&mut out, "User-agent: *\nAllow: /\n\nSitemap: ");
    push_chars(&mut out, &trimmed);
    push_str_chars(&mut out, "/sitemap.xml");
    proof {
        assert(out@ =~= spec_robots(base@));
    }
    string_from_chars(&out)
}

/// The build metadata document's model: the generator's name and version,
/// the build timestamp, the configuration version, and the page counter.
pub open spec fn build_info_model(
    version: Seq<char>,
    build_time: Seq<char>,
    config_version: Seq<char>,
) -> MetaNode {
    MetaNode::Dict(
        seq![
            ("generator"@, MetaNode::Str("RawSSG"@)),
            ("version"@, MetaNode::Str(version)),
            ("build_time"@, MetaNode::Str(build_time)),
            ("config_version"@, MetaNode::Str(config_version)),
            ("pages_count"@, MetaNode::Num("0"@)),
        ],
    )
}

/// Renders the build metadata document as JSON.
pub fn generate_build_info(version: &str, build_time: &str, config_version: &str) -> (r: String)
    ensures
        r@ == crate::json::spec_json_meta(
            build_info_model(version@, build_time@, config_version@),
        ),
{
    let mut pairs: Vec<(String, MetaValue)> = Vec::new();
    pairs.push((String::from_str("generator"), MetaValue::Str(String::from_str("RawSSG"))));
    pairs.push((String::from_str("version"), MetaValue::Str(version.to_owned())));
    pairs.push((String::from_str("build_time"), MetaValue::Str(build_time.to_owned())));
    pairs.push((String::from_str("config_version"), MetaValue::Str(config_version.to_owned())));
    pairs.push((String::from_str("pages_count"), MetaValue::Num(String::from_str("0"))));
    let v = MetaValue::Dict(pairs);
    proof {
        lemma_dict_model(v->Dict_0);
        assert(pair_models_of(v->Dict_0@) =~= build_info_model(
            version@,
            build_time@,
            config_version@,
        )->Dict_0);
    }
    let mut out: Vec<char> = Vec::new();
    crate::json::push_json_meta(&mut out, &v);
    string_from_chars(&out)
}

} // verus!
