//! The template registry and renderer. Templates are compiled and executed
//! by `handlebars` behind trusted wrappers; which template applies to a
//! page, how template and partial names are derived from files, and the
//! template data object are all verified here.

use vstd::prelude::*;
use vstd::string::StringExecFns;
use crate::config::RawConfig;
use crate::error::RawSSGError;
use crate::frontmatter::{rfind_char, rfind_spec, Content};
use crate::meta::{MetaNode, MetaValue};
use crate::text::{chars_of, str_eq, string_from_chars, sub_chars};

verus! {

broadcast use vstd::std_specs::vec::group_vec_axioms, vstd::seq::group_seq_axioms;

#[verifier::external_type_specification]
#[verifier::external_body]
pub struct ExHandlebars<'a>(handlebars::Handlebars<'a>);

#[verifier::external_type_specification]
#[verifier::external_body]
pub struct ExJsonValue(serde_json::Value);

/// The templates a registry holds: each registered name mapped to its
/// source text. Partials share this namespace.
pub uninterp spec fn hb_registry(h: handlebars::Handlebars<'static>) -> Map<Seq<char>, Seq<char>>;

/// What executing a registered template on a data value returns: the
/// rendered markup, or a render error's message. The result depends on the
/// registry value (its templates and helpers), the template name and the
/// data alone — which presumes every registered helper is a pure function
/// of its inputs, as this library's fixed helpers are.
pub uninterp spec fn hb_output(
    h: handlebars::Handlebars<'static>,
    name: Seq<char>,
    data: serde_json::Value,
) -> Result<Seq<char>, Seq<char>>;

/// The JSON document a text parses to; `None` when the text is not valid
/// JSON. The result depends on the text alone.
pub uninterp spec fn json_value_of(s: Seq<char>) -> Option<serde_json::Value>;

/// Relies on `serde_json::from_str::<serde_json::Value>`: it parses a JSON
/// text into a document value and fails exactly on invalid JSON.
#[verifier::external_body]
fn json_parse(s: &str) -> (r: Option<serde_json::Value>)
    ensures
        r == json_value_of(s@),
{
    serde_json::from_str::<serde_json::Value>(s).ok()
}

/// Whether the engine compiles a template text: a function of the
/// engine's compile settings and the text alone.
pub uninterp spec fn hb_compiles(h: handlebars::Handlebars<'static>, tpl: Seq<char>) -> bool;

/// Relies on `Handlebars::register_template_string`: the text is compiled
/// and, on success, stored under its name; on a syntax error nothing is
/// stored and the error is returned. Whether a text compiles depends on
/// the engine's compile settings and the text alone — the name plays no
/// part, and registering a template changes no compile setting, so what
/// compiles stays the same.
#[verifier::external_body]
fn hb_register(h: &mut handlebars::Handlebars<'static>, name: &str, tpl: &str) -> (r: Result<
    (),
    String,
>)
    ensures
        match r {
            Ok(_) => hb_registry(*final(h)) == hb_registry(*old(h)).insert(name@, tpl@),
            Err(_) => hb_registry(*final(h)) == hb_registry(*old(h)),
        },
        r is Ok <==> hb_compiles(*old(h), tpl@),
        forall|t: Seq<char>| #[trigger] hb_compiles(*final(h), t) == hb_compiles(*old(h), t),
{
    h.register_template_string(name, tpl).map_err(|e| e.to_string())
}

/// Relies on `Handlebars::has_template`: whether a template of this name
/// is registered.
#[verifier::external_body]
fn hb_has_template(h: &handlebars::Handlebars<'static>, name: &str) -> (r: bool)
    ensures
        r == hb_registry(*h).dom().contains(name@),
{
    h.has_template(name)
}

/// Relies on `Handlebars::render`: it executes the named template on the
/// data and returns the rendered markup, or fails — among else when no
/// template of this name is registered.
#[verifier::external_body]
fn hb_render(h: &handlebars::Handlebars<'static>, name: &str, data: &serde_json::Value) -> (r:
    Result<String, String>)
    ensures
        match r {
            Ok(s) => hb_output(*h, name@, *data) == Ok::<Seq<char>, Seq<char>>(s@),
            Err(e) => hb_output(*h, name@, *data) == Err::<Seq<char>, Seq<char>>(e@),
        },
        !hb_registry(*h).dom().contains(name@) ==> r is Err,
{
    h.render(name, data).map_err(|e| e.to_string())
}

/// The compiled template registry: the engine that executes templates, and
/// nothing else. The helper functions are registered into the engine by the
/// caller that constructs it; their behavior is defined in `helpers`.
pub struct TemplateEngine {
    pub hb: handlebars::Handlebars<'static>,
}

/// The final component of a `/`-separated path.
pub open spec fn file_name_of(p: Seq<char>) -> Seq<char> {
    match rfind_spec(p, '/') {
        Some(i) => p.subrange(i + 1, p.len() as int),
        None => p,
    }
}

/// The name ends with the markup extension.
pub open spec fn is_markup_name(name: Seq<char>) -> bool {
    name.len() >= 5 && name.subrange(name.len() - 5, name.len() as int) == ".html"@
}

/// How a file of the template directory is registered: a markup file whose
/// name begins with an underscore is a partial, keyed by its name with the
/// underscore and extension stripped; every other markup file is a
/// template, keyed by its path relative to the directory; any other file
/// is not registered.
pub enum TemplateRole {
    Partial(Seq<char>),
    Template(Seq<char>),
    Ignored,
}

pub open spec fn spec_classify(relpath: Seq<char>) -> TemplateRole {
    let name = file_name_of(relpath);
    if !is_markup_name(name) {
        TemplateRole::Ignored
    } else if name.len() >= 6 && name[0] == '_' {
        TemplateRole::Partial(name.subrange(1, name.len() - 5))
    } else {
        TemplateRole::Template(relpath)
    }
}

/// The registry contents after the files are registered in order.
pub open spec fn spec_register_fold(
    m: Map<Seq<char>, Seq<char>>,
    files: Seq<(Seq<char>, Seq<char>)>,
) -> Map<Seq<char>, Seq<char>>
    decreases files.len(),
{
    if files.len() == 0 {
        m
    } else {
        let m2 = match spec_classify(files[0].0) {
            TemplateRole::Partial(key) => m.insert(key, files[0].1),
            TemplateRole::Template(key) => m.insert(key, files[0].1),
            TemplateRole::Ignored => m,
        };
        spec_register_fold(m2, files.drop_first())
    }
}

/// Every file that would be registered — classified as a partial or a
/// template — compiles on the engine.
pub open spec fn spec_all_compile(
    h: handlebars::Handlebars<'static>,
    files: Seq<(Seq<char>, Seq<char>)>,
) -> bool {
    forall|i: int|
        0 <= i < files.len() ==> (spec_classify(#[trigger] files[i].0) is Ignored || hb_compiles(
            h,
            files[i].1,
        ))
}

/// The key a file is registered under.
fn classify_file(relpath: &str) -> (r: Option<String>)
    ensures
        match r {
            Some(key) => match spec_classify(relpath@) {
                TemplateRole::Partial(k) => k == key@,
                TemplateRole::Template(k) => k == key@,
                TemplateRole::Ignored => false,
            },
            None => spec_classify(relpath@) is Ignored,
        },
{
    let p = chars_of(relpath);
    let plen = p.len();
    let start: usize = match rfind_char(&p, '/') {
        Some(i) => i + 1,
        None => 0,
    };
    let name = sub_chars(&p, start, plen);
    proof {
        assert(name@ == file_name_of(relpath@));
    }
    let nlen = name.len();
    if nlen < 5 {
        return None;
    }
    let tail = sub_chars(&name, nlen - 5, nlen);
    let tail_str = string_from_chars(&tail);
    if !str_eq(tail_str.as_str(), ".html") {
        return None;
    }
    if nlen >= 6 && name[0] == '_' {
        let stem = sub_chars(&name, 1, nlen - 5);
        Some(string_from_chars(&stem))
    } else {
        proof {
            assert(nlen >= 6 ==> name@[0] != '_');
        }
        Some(relpath.to_owned())
    }
}

impl TemplateEngine {
    /// Wraps an engine the caller constructed and registered helpers
    /// into. Rendering is modeled as a function of the engine value, the
    /// template name and the data, so every helper registered into the
    /// engine is expected to be a pure function of its inputs — the fixed
    /// helpers of this library are.
    pub fn new(hb: handlebars::Handlebars<'static>) -> (r: TemplateEngine)
        ensures
            hb_registry(r.hb) == hb_registry(hb),
    {
        TemplateEngine { hb }
    }

    /// Registers the given template files, in order: partials under their
    /// stripped names, templates under their relative paths, other files
    /// not at all. The registration succeeds exactly when every registered
    /// file compiles; a file that does not compile fails with a `Template`
    /// error, and the files before it stay registered.
    pub fn register_files(&mut self, files: &Vec<(String, String)>) -> (r: Result<
        (),
        RawSSGError,
    >)
        ensures
            r is Ok ==> hb_registry(final(self).hb) == spec_register_fold(
                hb_registry(old(self).hb),
                Seq::new(
                    files@.len(),
                    |i: int|
                        if 0 <= i < files@.len() {
                            (files@[i].0@, files@[i].1@)
                        } else {
                            (Seq::<char>::empty(), Seq::<char>::empty())
                        },
                ),
            ),
            r is Ok <==> spec_all_compile(
                old(self).hb,
                Seq::new(
                    files@.len(),
                    |i: int|
                        if 0 <= i < files@.len() {
                            (files@[i].0@, files@[i].1@)
                        } else {
                            (Seq::<char>::empty(), Seq::<char>::empty())
                        },
                ),
            ),
            r matches Err(e) ==> e matches RawSSGError::Template(_),
            forall|t: Seq<char>| #[trigger] hb_compiles(final(self).hb, t) == hb_compiles(
                old(self).hb,
                t,
            ),
    {
        let ghost fs = Seq::new(
            files@.len(),
            |i: int|
                if 0 <= i < files@.len() {
                    (files@[i].0@, files@[i].1@)
                } else {
                    (Seq::<char>::empty(), Seq::<char>::empty())
                },
        );
        let n = files.len();
        let mut i: usize = 0;
        proof {
            assert(fs.skip(0) =~= fs);
        }
        while i < n
            invariant
                i <= n,
                n == files@.len(),
                fs == Seq::new(
                    files@.len(),
                    |i: int|
                        if 0 <= i < files@.len() {
                            (files@[i].0@, files@[i].1@)
                        } else {
                            (Seq::<char>::empty(), Seq::<char>::empty())
                        },
                ),
                spec_register_fold(hb_registry(self.hb), fs.skip(i as int)) == spec_register_fold(
                    hb_registry(old(self).hb),
                    fs,
                ),
                forall|t: Seq<char>| #[trigger] hb_compiles(self.hb, t) == hb_compiles(
                    old(self).hb,
                    t,
                ),
                forall|q: int|
                    0 <= q < i ==> (spec_classify(#[trigger] fs[q].0) is Ignored || hb_compiles(
                        old(self).hb,
                        fs[q].1,
                    )),
            decreases n - i,
        {
            let (relpath, content) = &files[i];
            let ghost reg0 = hb_registry(self.hb);
            proof {
                assert(fs.skip(i as int)[0] == fs[i as int]);
                assert(fs[i as int] == (relpath@, content@));
            }
            match classify_file(relpath.as_str()) {
                Some(key) => {
                    match hb_register(&mut self.hb, key.as_str(), content.as_str()) {
                        Ok(_) => {},
                        Err(m) => {
                            proof {
                                assert(!hb_compiles(old(self).hb, fs[i as int].1));
                                assert(!spec_all_compile(old(self).hb, fs));
                            }
                            return Err(RawSSGError::Template(m));
                        },
                    }
                },
                None => {},
            }
            proof {
                assert(spec_register_fold(reg0, fs.skip(i as int)) == spec_register_fold(
                    hb_registry(self.hb),
                    fs.skip(i as int).drop_first(),
                ));
                assert(fs.skip(i as int).drop_first() =~= fs.skip(i + 1));
            }
            i += 1;
        }
        proof {
            assert(fs.skip(n as int) =~= Seq::<(Seq<char>, Seq<char>)>::empty());
            assert(spec_all_compile(old(self).hb, fs));
        }
        Ok(())
    }

    /// Whether a template of this name is registered.
    pub fn has_template(&self, name: &str) -> (r: bool)
        ensures
            r == hb_registry(self.hb).dom().contains(name@),
    {
        hb_has_template(&self.hb, name)
    }

    /// The template that applies to a page: its explicit template
    /// override, else its layout field, else the given default; and the
    /// canonical base template when the resolved name is not registered.
    pub open spec fn spec_resolve(
        self,
        c: Content,
        default_layout: Seq<char>,
    ) -> Seq<char> {
        let wanted = match c.frontmatter.template {
            Some(t) => t@,
            None => match c.frontmatter.layout {
                Some(l) => l@,
                None => default_layout,
            },
        };
        if hb_registry(self.hb).dom().contains(wanted) {
            wanted
        } else {
            "base.html"@
        }
    }

    pub fn resolve(&self, c: &Content, default_layout: &str) -> (r: String)
        ensures
            r@ == self.spec_resolve(*c, default_layout@),
    {
        let wanted: String = match &c.frontmatter.template {
            Some(t) => t.clone(),
            None => match &c.frontmatter.layout {
                Some(l) => l.clone(),
                None => default_layout.to_owned(),
            },
        };
        if self.has_template(wanted.as_str()) {
            wanted
        } else {
            String::from_str("base.html")
        }
    }

    /// Executes the named template on a JSON data text: the text is parsed
    /// and the template rendered on the document. Fails with a `Json` error
    /// on invalid JSON, and with a `Render` error when the engine rejects
    /// the render.
    pub fn render(&self, name: &str, data_json: &str) -> (r: Result<String, RawSSGError>)
        ensures
            match json_value_of(data_json@) {
                Some(v) => match hb_output(self.hb, name@, v) {
                    Ok(s) => r matches Ok(out) && out@ == s,
                    Err(e) => r matches Err(err) && err matches RawSSGError::Render(m) && m@ == e,
                },
                None => r matches Err(err) && err matches RawSSGError::Json(_),
            },
    {
        let v = match json_parse(data_json) {
            Some(v) => v,
            None => {
                return Err(RawSSGError::Json(String::from_str("Invalid template data")));
            },
        };
        match hb_render(&self.hb, name, &v) {
            Ok(s) => Ok(s),
            Err(m) => Err(RawSSGError::Render(m)),
        }
    }
}

/// The essential template names: when any of them is absent from the
/// template directory, the bundled defaults are extracted into it.
pub fn essential_templates() -> (r: Vec<String>)
    ensures
        r.deep_view() =~= seq!["base.html"@, "_sidebar.html"@, "_content.html"@, "_footer.html"@],
{
    let mut v: Vec<String> = Vec::new();
    v.push(String::from_str("base.html"));
    v.push(String::from_str("_sidebar.html"));
    v.push(String::from_str("_content.html"));
    v.push(String::from_str("_footer.html"));
    proof {
        assert(v.deep_view() =~= seq![
            "base.html"@,
            "_sidebar.html"@,
            "_content.html"@,
            "_footer.html"@,
        ]);
    }
    v
}

/// Whether the bundled defaults must be extracted: exactly when some
/// essential template is missing.
pub fn needs_default_extraction(essential_present: &Vec<bool>) -> (r: bool)
    ensures
        r == exists|i: int| 0 <= i < essential_present@.len() && !(#[trigger] essential_present@[i]),
{
    let n = essential_present.len();
    let mut i: usize = 0;
    while i < n
        invariant
            i <= n,
            n == essential_present@.len(),
            forall|j: int| 0 <= j < i ==> #[trigger] essential_present@[j],
        decreases n - i,
    {
        if !essential_present[i] {
            return true;
        }
        i += 1;
    }
    false
}

/// Extraction is idempotent and non-destructive: a bundled file is written
/// only when the destination does not already exist; an existing user file
/// is never overwritten, even when its content differs from the bundled
/// default.
pub fn should_write_bundled(destination_exists: bool) -> (r: bool)
    ensures
        r == !destination_exists,
{
    !destination_exists
}

} // verus!
