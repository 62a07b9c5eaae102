//! Content files and their frontmatter metadata block.

use vstd::prelude::*;
use crate::meta::{lemma_dict_model, lemma_list_model, models_of, pair_models_of, MetaNode, MetaValue};
use crate::error::RawSSGError;
use crate::text::{
    chars_of, find_from, find_spec, occurs_at, push_str_chars, spec_trim, spec_trim_start,
    str_eq, string_from_chars, sub_chars, trim_chars, trim_start_chars,
};
use crate::yaml::{decode_metadata, yaml_doc_of};

verus! {

broadcast use vstd::std_specs::vec::group_vec_axioms, vstd::seq::group_seq_axioms;

/// The typed metadata of a content file. Unrecognized keys are preserved,
/// in order, in the catch-all `custom` mapping.
#[derive(Debug)]
pub struct Frontmatter {
    pub title: Option<String>,
    pub slug: Option<String>,
    pub layout: Option<String>,
    pub template: Option<String>,
    pub date: Option<String>,
    pub draft: Option<bool>,
    pub tags: Option<Vec<String>>,
    pub categories: Option<Vec<String>>,
    pub custom: Vec<(String, MetaValue)>,
}

/// The mathematical model of a `Frontmatter`.
pub struct FmModel {
    pub title: Option<Seq<char>>,
    pub slug: Option<Seq<char>>,
    pub layout: Option<Seq<char>>,
    pub template: Option<Seq<char>>,
    pub date: Option<Seq<char>>,
    pub draft: Option<bool>,
    pub tags: Option<Seq<Seq<char>>>,
    pub categories: Option<Seq<Seq<char>>>,
    pub custom: Seq<(Seq<char>, MetaNode)>,
}

/// The all-default metadata: every field absent, no custom keys.
pub open spec fn fm_default_model() -> FmModel {
    FmModel {
        title: None,
        slug: None,
        layout: None,
        template: None,
        date: None,
        draft: None,
        tags: None,
        categories: None,
        custom: Seq::empty(),
    }
}

impl Frontmatter {
    /// The mathematical model of this metadata.
    pub open spec fn model(self) -> FmModel {
        FmModel {
            title: self.title.deep_view(),
            slug: self.slug.deep_view(),
            layout: self.layout.deep_view(),
            template: self.template.deep_view(),
            date: self.date.deep_view(),
            draft: self.draft,
            tags: self.tags.deep_view(),
            categories: self.categories.deep_view(),
            custom: pair_models_of(self.custom@),
        }
    }

    /// Metadata with every field absent.
    pub fn new_default() -> (r: Frontmatter)
        ensures
            r.model() == fm_default_model(),
    {
        let r = Frontmatter {
            title: None,
            slug: None,
            layout: None,
            template: None,
            date: None,
            draft: None,
            tags: None,
            categories: None,
            custom: Vec::new(),
        };
        proof {
            assert(r.model().custom =~= fm_default_model().custom);
        }
        r
    }
}

impl Default for Frontmatter {
    fn default() -> (r: Frontmatter)
        ensures
            r.model() == fm_default_model(),
    {
        Frontmatter::new_default()
    }
}

/// A parsed content file: metadata, body, and the source path it came from.
#[derive(Debug)]
pub struct Content {
    pub frontmatter: Frontmatter,
    pub body: String,
    pub path: String,
}

impl Content {
    /// Parses a content file's text: the file that stands at `path` holds
    /// `text`; reading it from disk is the caller's concern.
    pub fn parse(path: &str, text: &str) -> (r: Result<Content, RawSSGError>)
        ensures
            r matches Ok(c) ==> content_from(c, path@, text@),
            parse_ok_model(text@) is Some ==> r is Ok,
            !spec_has_frontmatter(text@) ==> (r matches Ok(c) && c.frontmatter.model()
                == fm_default_model() && c.body@ == text@ && c.path@ == path@),
            spec_has_frontmatter(text@) && find_spec(text@, delim_seq(), 3) is None ==> (r
                matches Err(e) && e matches RawSSGError::Frontmatter(m) && m@
                == "Invalid frontmatter format"@),
            spec_has_frontmatter(text@) ==> match find_spec(text@, delim_seq(), 3) {
                Some(j) => {
                    let block = spec_trim(text@.subrange(3, j));
                    let body = spec_trim_start(text@.subrange(j + 3, text@.len() as int));
                    match yaml_doc_of(block) {
                        Some(node) => match node {
                            MetaNode::Dict(ps) => match fm_of_pairs(ps) {
                                Some(m) => r matches Ok(c) && c.frontmatter.model() == m
                                    && c.body@ == body && c.path@ == path@,
                                None => r matches Err(e) && e matches RawSSGError::Yaml(_),
                            },
                            _ => r matches Err(e) && e matches RawSSGError::Yaml(_),
                        },
                        None => r matches Err(e) && e matches RawSSGError::Yaml(_),
                    }
                },
                None => true,
            },
    {
        parse_file_text(path, text)
    }

    /// The page is skipped exactly when its draft flag is explicitly true
    /// and drafts are not shown.
    pub open spec fn spec_should_skip(self, show_drafts: bool) -> bool {
        match self.frontmatter.draft {
            Some(d) => d && !show_drafts,
            None => false,
        }
    }

    pub fn should_skip(&self, show_drafts: bool) -> (r: bool)
        ensures
            r == self.spec_should_skip(show_drafts),
    {
        if let Some(d) = self.frontmatter.draft {
            d && !show_drafts
        } else {
            false
        }
    }
}

/// The last position of `ch` in `s`, if any.
pub open spec fn rfind_spec(s: Seq<char>, ch: char) -> Option<int>
    decreases s.len(),
{
    if s.len() == 0 {
        None
    } else if s.last() == ch {
        Some(s.len() - 1)
    } else {
        rfind_spec(s.drop_last(), ch)
    }
}

/// The filename stem of a `/`-separated path: the final component without
/// its extension.
pub open spec fn file_stem_spec(p: Seq<char>) -> Seq<char> {
    let start = match rfind_spec(p, '/') {
        Some(i) => i + 1,
        None => 0,
    };
    let name = p.subrange(start, p.len() as int);
    match rfind_spec(name, '.') {
        Some(j) => if j > 0 {
            name.subrange(0, j)
        } else {
            name
        },
        None => name,
    }
}

/// The strings a metadata list decodes to, when every item is a string.
pub open spec fn strs_of(items: Seq<MetaNode>) -> Option<Seq<Seq<char>>>
    decreases items.len(),
{
    if items.len() == 0 {
        Some(Seq::empty())
    } else {
        match items[0] {
            MetaNode::Str(s) => match strs_of(items.drop_first()) {
                Some(rest) => Some(seq![s] + rest),
                None => None,
            },
            _ => None,
        }
    }
}

/// One key/value pair folded into the metadata under construction: a typed
/// key must carry a value of its type (or null, which leaves it absent);
/// an unrecognized key is appended to the catch-all mapping.
pub open spec fn fm_step(m: FmModel, k: Seq<char>, v: MetaNode) -> Option<FmModel> {
    if k == "title"@ {
        match v {
            MetaNode::Str(s) => Some(FmModel { title: Some(s), ..m }),
            MetaNode::Null => Some(FmModel { title: None, ..m }),
            _ => None,
        }
    } else if k == "slug"@ {
        match v {
            MetaNode::Str(s) => Some(FmModel { slug: Some(s), ..m }),
            MetaNode::Null => Some(FmModel { slug: None, ..m }),
            _ => None,
        }
    } else if k == "layout"@ {
        match v {
            MetaNode::Str(s) => Some(FmModel { layout: Some(s), ..m }),
            MetaNode::Null => Some(FmModel { layout: None, ..m }),
            _ => None,
        }
    } else if k == "template"@ {
        match v {
            MetaNode::Str(s) => Some(FmModel { template: Some(s), ..m }),
            MetaNode::Null => Some(FmModel { template: None, ..m }),
            _ => None,
        }
    } else if k == "date"@ {
        match v {
            MetaNode::Str(s) => Some(FmModel { date: Some(s), ..m }),
            MetaNode::Null => Some(FmModel { date: None, ..m }),
            _ => None,
        }
    } else if k == "draft"@ {
        match v {
            MetaNode::Bool(b) => Some(FmModel { draft: Some(b), ..m }),
            MetaNode::Null => Some(FmModel { draft: None, ..m }),
            _ => None,
        }
    } else if k == "tags"@ {
        match v {
            MetaNode::List(items) => match strs_of(items) {
                Some(ss) => Some(FmModel { tags: Some(ss), ..m }),
                None => None,
            },
            MetaNode::Null => Some(FmModel { tags: None, ..m }),
            _ => None,
        }
    } else if k == "categories"@ {
        match v {
            MetaNode::List(items) => match strs_of(items) {
                Some(ss) => Some(FmModel { categories: Some(ss), ..m }),
                None => None,
            },
            MetaNode::Null => Some(FmModel { categories: None, ..m }),
            _ => None,
        }
    } else {
        Some(FmModel { custom: m.custom.push((k, v)), ..m })
    }
}

/// The pairs of a decoded metadata mapping folded over `m`, first to last.
pub open spec fn fm_fold(m: FmModel, pairs: Seq<(Seq<char>, MetaNode)>) -> Option<FmModel>
    decreases pairs.len(),
{
    if pairs.len() == 0 {
        Some(m)
    } else {
        match fm_step(m, pairs[0].0, pairs[0].1) {
            Some(m2) => fm_fold(m2, pairs.drop_first()),
            None => None,
        }
    }
}

/// The metadata a decoded mapping denotes: the default metadata with every
/// pair folded in; `None` when a typed key carries a wrongly-typed value.
pub open spec fn fm_of_pairs(pairs: Seq<(Seq<char>, MetaNode)>) -> Option<FmModel> {
    fm_fold(fm_default_model(), pairs)
}

/// Reads a metadata list as a list of strings.
fn strings_of_list(items: &Vec<MetaValue>) -> (r: Option<Vec<String>>)
    ensures
        match r {
            Some(v) => strs_of(models_of(items@)) == Some(v.deep_view()),
            None => strs_of(models_of(items@)) is None,
        },
{
    let ghost ms = models_of(items@);
    let mut out: Vec<String> = Vec::new();
    let n = items.len();
    let mut i: usize = 0;
    while i < n
        invariant
            i <= n,
            n == items@.len(),
            ms == models_of(items@),
            out@.len() == i,
            forall|j: int| 0 <= j < i ==> (#[trigger] ms[j] matches MetaNode::Str(s) && s == out@[j]@),
        decreases n - i,
    {
        match &items[i] {
            MetaValue::Str(s) => {
                out.push(s.clone());
            },
            _ => {
                proof {
                    lemma_strs_of_bad(ms, i as int);
                }
                return None;
            },
        }
        i += 1;
    }
    proof {
        lemma_strs_of_good(ms, out.deep_view());
    }
    Some(out)
}

proof fn lemma_strs_of_bad(ms: Seq<MetaNode>, i: int)
    requires
        0 <= i < ms.len(),
        !(ms[i] is Str),
    ensures
        strs_of(ms) is None,
    decreases i,
{
    if ms.len() > 0 {
        match ms[0] {
            MetaNode::Str(_) => {
                assert(i > 0);
                lemma_strs_of_bad(ms.drop_first(), i - 1);
            },
            _ => {},
        }
    }
}

proof fn lemma_strs_of_good(ms: Seq<MetaNode>, ss: Seq<Seq<char>>)
    requires
        ms.len() == ss.len(),
        forall|j: int| 0 <= j < ms.len() ==> (#[trigger] ms[j] matches MetaNode::Str(s) && s == ss[j]),
    ensures
        strs_of(ms) == Some(ss),
    decreases ms.len(),
{
    if ms.len() == 0 {
        assert(ss =~= Seq::<Seq<char>>::empty());
    } else {
        assert(ms[0] matches MetaNode::Str(s) && s == ss[0]);
        lemma_strs_of_good(ms.drop_first(), ss.drop_first());
        let s0 = ms[0]->Str_0;
        assert(seq![s0] + ss.drop_first() =~= ss);
    }
}

/// Reads a decoded metadata document into typed metadata. `None` when the
/// document is not a mapping, or a typed key carries a wrongly-typed value.
pub fn frontmatter_of_meta(doc: &MetaValue) -> (r: Option<Frontmatter>)
    ensures
        match doc.model() {
            MetaNode::Dict(ps) => match r {
                Some(fm) => fm_of_pairs(ps) == Some(fm.model()),
                None => fm_of_pairs(ps) is None,
            },
            _ => r is None,
        },
{
    let pairs = match doc {
        MetaValue::Dict(pairs) => pairs,
        _ => {
            return None;
        },
    };
    let ghost ps = pair_models_of(pairs@);
    proof {
        lemma_dict_model(*pairs);
    }
    let mut fm = Frontmatter::new_default();
    let n = pairs.len();
    proof {
        assert(ps.skip(0) =~= ps);
    }
    let mut i: usize = 0;
    while i < n
        invariant
            i <= n,
            n == pairs@.len(),
            ps == pair_models_of(pairs@),
            ps.len() == n,
            doc.model() == MetaNode::Dict(ps),
            fm_fold(fm.model(), ps.skip(i as int)) == fm_of_pairs(ps),
        decreases n - i,
    {
        let (k, v) = &pairs[i];
        let ghost fm0 = fm.model();
        proof {
            assert(ps.skip(i as int)[0] == ps[i as int]);
            assert(ps[i as int] == (k@, v.model()));
        }
        if str_eq(k.as_str(), "title") {
            match v {
                MetaValue::Str(s) => {
                    fm.title = Some(s.clone());
                },
                MetaValue::Null => {
                    fm.title = None;
                },
                _ => {
                    proof {
                        assert(fm_fold(fm0, ps.skip(i as int)) is None);
                    }
                    return None;
                },
            }
        } else if str_eq(k.as_str(), "slug") {
            match v {
                MetaValue::Str(s) => {
                    fm.slug = Some(s.clone());
                },
                MetaValue::Null => {
                    fm.slug = None;
                },
                _ => {
                    proof {
                        assert(fm_fold(fm0, ps.skip(i as int)) is None);
                    }
                    return None;
                },
            }
        } else if str_eq(k.as_str(), "layout") {
            match v {
                MetaValue::Str(s) => {
                    fm.layout = Some(s.clone());
                },
                MetaValue::Null => {
                    fm.layout = None;
                },
                _ => {
                    proof {
                        assert(fm_fold(fm0, ps.skip(i as int)) is None);
                    }
                    return None;
                },
            }
        } else if str_eq(k.as_str(), "template") {
            match v {
                MetaValue::Str(s) => {
                    fm.template = Some(s.clone());
                },
                MetaValue::Null => {
                    fm.template = None;
                },
                _ => {
                    proof {
                        assert(fm_fold(fm0, ps.skip(i as int)) is None);
                    }
                    return None;
                },
            }
        } else if str_eq(k.as_str(), "date") {
            match v {
                MetaValue::Str(s) => {
                    fm.date = Some(s.clone());
                },
                MetaValue::Null => {
                    fm.date = None;
                },
                _ => {
                    proof {
                        assert(fm_fold(fm0, ps.skip(i as int)) is None);
                    }
                    return None;
                },
            }
        } else if str_eq(k.as_str(), "draft") {
            match v {
                MetaValue::Bool(b) => {
                    fm.draft = Some(*b);
                },
                MetaValue::Null => {
                    fm.draft = None;
                },
                _ => {
                    proof {
                        assert(fm_fold(fm0, ps.skip(i as int)) is None);
                    }
                    return None;
                },
            }
        } else if str_eq(k.as_str(), "tags") {
            match v {
                MetaValue::List(items) => {
                    proof {
                        lemma_list_model(*items);
                    }
                    match strings_of_list(items) {
                        Some(ss) => {
                            fm.tags = Some(ss);
                        },
                        None => {
                            proof {
                                lemma_list_model(*items);
                                assert(fm_fold(fm0, ps.skip(i as int)) is None);
                            }
                            return None;
                        },
                    }
                },
                MetaValue::Null => {
                    fm.tags = None;
                },
                _ => {
                    proof {
                        assert(fm_fold(fm0, ps.skip(i as int)) is None);
                    }
                    return None;
                },
            }
        } else if str_eq(k.as_str(), "categories") {
            match v {
                MetaValue::List(items) => {
                    proof {
                        lemma_list_model(*items);
                    }
                    match strings_of_list(items) {
                        Some(ss) => {
                            fm.categories = Some(ss);
                        },
                        None => {
                            proof {
                                lemma_list_model(*items);
                                assert(fm_fold(fm0, ps.skip(i as int)) is None);
                            }
                            return None;
                        },
                    }
                },
                MetaValue::Null => {
                    fm.categories = None;
                },
                _ => {
                    proof {
                        assert(fm_fold(fm0, ps.skip(i as int)) is None);
                    }
                    return None;
                },
            }
        } else {
            fm.custom.push((k.clone(), v.duplicate()));
            proof {
                assert(pair_models_of(fm.custom@) =~= fm0.custom.push((k@, v.model())));
            }
        }
        proof {
            assert(fm_step(fm0, k@, v.model()) == Some(fm.model()));
            assert(ps.skip(i as int).drop_first() =~= ps.skip(i + 1));
        }
        i += 1;
    }
    proof {
        assert(ps.skip(n as int) =~= Seq::<(Seq<char>, MetaNode)>::empty());
    }
    Some(fm)
}

/// The last position of `ch` in `s`, if any.
pub fn rfind_char(s: &Vec<char>, ch: char) -> (r: Option<usize>)
    ensures
        match r {
            Some(i) => i < s@.len() && rfind_spec(s@, ch) == Some(i as int),
            None => rfind_spec(s@, ch) is None,
        },
{
    let n = s.len();
    proof {
        assert(s@.subrange(0, n as int) =~= s@);
    }
    let mut i: usize = n;
    while i > 0
        invariant
            i <= n,
            n == s@.len(),
            rfind_spec(s@, ch) == rfind_spec(s@.subrange(0, i as int), ch),
        decreases i,
    {
        if s[i - 1] == ch {
            proof {
                assert(s@.subrange(0, i as int).last() == ch);
            }
            return Some(i - 1);
        }
        proof {
            assert(s@.subrange(0, i as int).drop_last() =~= s@.subrange(0, i - 1 as int));
            assert(s@.subrange(0, i as int).last() != ch);
        }
        i -= 1;
    }
    proof {
        assert(s@.subrange(0, 0) =~= Seq::<char>::empty());
    }
    None
}


/// The frontmatter delimiter marker.
pub open spec fn delim_seq() -> Seq<char> {
    "---"@
}

/// The file begins with the delimiter marker.
pub open spec fn spec_has_frontmatter(t: Seq<char>) -> bool {
    occurs_at(t, delim_seq(), 0)
}

/// Parses a content file's text.
///
/// A file that does not begin with the delimiter has all-default metadata
/// and the entire text as its body. A file that begins with the delimiter
/// but holds no second delimiter fails with a `Frontmatter` error. Otherwise
/// the text between the delimiters, trimmed, is decoded as the metadata
/// block, and the rest, with leading whitespace removed, is the body; a
/// block that does not decode to a well-typed mapping fails with a `Yaml`
/// error.
fn parse_file_text(path: &str, text: &str) -> (r: Result<Content, RawSSGError>)
    ensures
        r matches Ok(c) ==> content_from(c, path@, text@),
        parse_ok_model(text@) is Some ==> r is Ok,
        !spec_has_frontmatter(text@) ==> (r matches Ok(c) && c.frontmatter.model()
            == fm_default_model() && c.body@ == text@ && c.path@ == path@),
        spec_has_frontmatter(text@) && find_spec(text@, delim_seq(), 3) is None ==> (r matches Err(
            e,
        ) && e matches RawSSGError::Frontmatter(m) && m@ == "Invalid frontmatter format"@),
        spec_has_frontmatter(text@) ==> match find_spec(text@, delim_seq(), 3) {
            Some(j) => {
                let block = spec_trim(text@.subrange(3, j));
                let body = spec_trim_start(text@.subrange(j + 3, text@.len() as int));
                match yaml_doc_of(block) {
                    Some(node) => match node {
                        MetaNode::Dict(ps) => match fm_of_pairs(ps) {
                            Some(m) => r matches Ok(c) && c.frontmatter.model() == m && c.body@
                                == body && c.path@ == path@,
                            None => r matches Err(e) && e matches RawSSGError::Yaml(_),
                        },
                        _ => r matches Err(e) && e matches RawSSGError::Yaml(_),
                    },
                    None => r matches Err(e) && e matches RawSSGError::Yaml(_),
                }
            },
            None => true,
        },
{
    let t = chars_of(text);
    let d = chars_of("---");
    proof {
        reveal_strlit("---");
        assert(d@.len() == 3);
    }
    let has_fm = t.len() >= 3 && t[0] == '-' && t[1] == '-' && t[2] == '-';
    proof {
        if has_fm {
            assert(t@.subrange(0, 3) =~= delim_seq());
        } else {
            if occurs_at(t@, delim_seq(), 0) {
                assert(t@.subrange(0, 3)[0] == t@[0]);
                assert(t@.subrange(0, 3)[1] == t@[1]);
                assert(t@.subrange(0, 3)[2] == t@[2]);
                assert(delim_seq()[0] == '-' && delim_seq()[1] == '-' && delim_seq()[2] == '-');
                assert(false);
            }
        }
        assert(has_fm == spec_has_frontmatter(text@));
    }
    if !has_fm {
        return Ok(
            Content {
                frontmatter: Frontmatter::new_default(),
                body: text.to_owned(),
                path: path.to_owned(),
            },
        );
    }
    match find_from(&t, &d, 3) {
        None => Err(RawSSGError::Frontmatter("Invalid frontmatter format".to_owned())),
        Some(j) => {
            let block_raw = sub_chars(&t, 3, j);
            let block_chars = trim_chars(&block_raw);
            let block = string_from_chars(&block_chars);
            let body_raw = sub_chars(&t, j + 3, t.len());
            let body_chars = trim_start_chars(&body_raw);
            let body = string_from_chars(&body_chars);
            match decode_metadata(block.as_str()) {
                None => Err(RawSSGError::Yaml("Invalid frontmatter block".to_owned())),
                Some(doc) => match frontmatter_of_meta(&doc) {
                    Some(fm) => Ok(Content { frontmatter: fm, body, path: path.to_owned() }),
                    None => Err(RawSSGError::Yaml("Invalid frontmatter field".to_owned())),
                },
            }
        },
    }
}

/// The filename stem of a `/`-separated path.
pub fn stem_of_path(path: &str) -> (r: String)
    ensures
        r@ == file_stem_spec(path@),
{
    let p = chars_of(path);
    let plen = p.len();
    let start: usize = match rfind_char(&p, '/') {
        Some(i) => i + 1,
        None => 0,
    };
    let name = sub_chars(&p, start, plen);
    let stem = match rfind_char(&name, '.') {
        Some(j) => {
            if j > 0 {
                sub_chars(&name, 0, j)
            } else {
                name
            }
        },
        None => name,
    };
    string_from_chars(&stem)
}

impl Content {
    /// The effective slug: the declared slug, else the filename stem.
    pub open spec fn spec_slug(self) -> Seq<char> {
        match self.frontmatter.slug {
            Some(s) => s@,
            None => file_stem_spec(self.path@),
        }
    }

    pub fn slug(&self) -> (r: String)
        ensures
            r@ == self.spec_slug(),
    {
        match &self.frontmatter.slug {
            Some(s) => s.clone(),
            None => stem_of_path(self.path.as_str()),
        }
    }

    /// The effective title: the declared title, else the filename stem.
    pub open spec fn spec_title(self) -> Seq<char> {
        match self.frontmatter.title {
            Some(t) => t@,
            None => file_stem_spec(self.path@),
        }
    }

    pub fn title_or_stem(&self) -> (r: String)
        ensures
            r@ == self.spec_title(),
    {
        match &self.frontmatter.title {
            Some(t) => t.clone(),
            None => stem_of_path(self.path.as_str()),
        }
    }


    /// The output location relative to the output root: `index.html` for
    /// the slug `index`, `<slug>/index.html` otherwise.
    pub open spec fn spec_output_rel(self) -> Seq<char> {
        if self.spec_slug() == "index"@ {
            "index.html"@
        } else {
            self.spec_slug() + "/index.html"@
        }
    }

    pub fn output_rel(&self) -> (r: String)
        ensures
            r@ == self.spec_output_rel(),
    {
        let slug = self.slug();
        let mut out: Vec<char> = Vec::new();
        if str_eq(slug.as_str(), "index") {
            push_str_chars(&mut out, "index.html");
        } else {
            push_str_chars(&mut out, slug.as_str());
            push_str_chars(&mut out, "/index.html");
        }
        let r = string_from_chars(&out);
        proof {
            assert(r@ =~= self.spec_output_rel());
        }
        r
    }

    /// The output location under `base`: the root `index.html` for the
    /// slug `index`, a same-named subdirectory's `index.html` otherwise.
    pub open spec fn spec_output_path(self, base: Seq<char>) -> Seq<char> {
        if self.spec_slug() == "index"@ {
            base + "/index.html"@
        } else {
            base + "/"@ + self.spec_slug() + "/index.html"@
        }
    }

    pub fn output_path(&self, base: &str) -> (r: String)
        ensures
            r@ == self.spec_output_path(base@),
    {
        let slug = self.slug();
        let mut out: Vec<char> = Vec::new();
        push_str_chars(&mut out, base);
        if str_eq(slug.as_str(), "index") {
            push_str_chars(&mut out, "/index.html");
        } else {
            push_str_chars(&mut out, "/");
            push_str_chars(&mut out, slug.as_str());
            push_str_chars(&mut out, "/index.html");
        }
        let r = string_from_chars(&out);
        proof {
            assert(r@ =~= self.spec_output_path(base@));
        }
        r
    }
}


/// The parse outcome a source file's text determines: the metadata model
/// and the body when it parses, `None` when it is rejected.
pub open spec fn parse_ok_model(text: Seq<char>) -> Option<(FmModel, Seq<char>)> {
    if !spec_has_frontmatter(text) {
        Some((fm_default_model(), text))
    } else {
        match find_spec(text, delim_seq(), 3) {
            Some(j) => {
                let block = spec_trim(text.subrange(3, j));
                let body = spec_trim_start(text.subrange(j + 3, text.len() as int));
                match yaml_doc_of(block) {
                    Some(node) => match node {
                        MetaNode::Dict(ps) => match fm_of_pairs(ps) {
                            Some(m) => Some((m, body)),
                            None => None,
                        },
                        _ => None,
                    },
                    None => None,
                }
            },
            None => None,
        }
    }
}

/// `c` is the parse of the source file at `path` with the given text.
pub open spec fn content_from(c: Content, path: Seq<char>, text: Seq<char>) -> bool {
    match parse_ok_model(text) {
        Some(mb) => c.frontmatter.model() == mb.0 && c.body@ == mb.1 && c.path@ == path,
        None => false,
    }
}

} // verus!
