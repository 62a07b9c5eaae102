//! The build orchestrator: content selection, the global page order, and
//! the single deterministic build pass that produces every output of a
//! site build as a plan of files.

use vstd::prelude::*;
use vstd::multiset::Multiset;
use vstd::seq_lib::lemma_multiset_commutative;
use vstd::string::StringExecFns;
use crate::config::RawConfig;
use crate::context::{GlobalContext, PageSummary};
use crate::error::RawSSGError;
use crate::frontmatter::{content_from, rfind_char, rfind_spec, Content};
use crate::template::{file_name_of, TemplateEngine};
use crate::text::{chars_of, contains_sub, occurs_from, str_eq, string_from_chars, sub_chars};

verus! {

broadcast use vstd::std_specs::vec::group_vec_axioms, vstd::seq::group_seq_axioms,
    vstd::seq_lib::group_to_multiset_ensures;

/// Lexicographic order on character sequences, by code point: the order
/// in which date strings compare.
pub open spec fn lex_le(a: Seq<char>, b: Seq<char>) -> bool
    decreases a.len(),
{
    if a.len() == 0 {
        true
    } else if b.len() == 0 {
        false
    } else if (a[0] as u32) < (b[0] as u32) {
        true
    } else if (a[0] as u32) > (b[0] as u32) {
        false
    } else {
        lex_le(a.drop_first(), b.drop_first())
    }
}

pub proof fn lemma_lex_le_total(a: Seq<char>, b: Seq<char>)
    ensures
        lex_le(a, b) || lex_le(b, a),
    decreases a.len(),
{
    if a.len() > 0 && b.len() > 0 && (a[0] as u32) == (b[0] as u32) {
        lemma_lex_le_total(a.drop_first(), b.drop_first());
    }
}

pub proof fn lemma_lex_le_trans(a: Seq<char>, b: Seq<char>, c: Seq<char>)
    requires
        lex_le(a, b),
        lex_le(b, c),
    ensures
        lex_le(a, c),
    decreases a.len(),
{
    if a.len() > 0 && b.len() > 0 && c.len() > 0 {
        if (a[0] as u32) == (b[0] as u32) && (b[0] as u32) == (c[0] as u32) {
            lemma_lex_le_trans(a.drop_first(), b.drop_first(), c.drop_first());
        }
    }
}

/// The key a page sorts by: its date string, or the empty string when it
/// has none — so dateless pages sort last in the descending order.
pub open spec fn date_key(c: Content) -> Seq<char> {
    match c.frontmatter.date {
        Some(d) => d@,
        None => Seq::empty(),
    }
}

/// Pages in descending date order: every later page's key is at most
/// every earlier one's.
pub open spec fn sorted_by_date_desc(s: Seq<Content>) -> bool {
    forall|i: int, j: int| 0 <= i < j < s.len() ==> lex_le(date_key(s[j]), date_key(s[i]))
}

/// The pages whose date key is `k`.
pub open spec fn keyed(k: Seq<char>) -> spec_fn(Content) -> bool {
    |c: Content| date_key(c) == k
}

proof fn lemma_filter_none(s: Seq<Content>, pred: spec_fn(Content) -> bool)
    requires
        forall|i: int| 0 <= i < s.len() ==> !pred(#[trigger] s[i]),
    ensures
        s.filter(pred) == Seq::<Content>::empty(),
    decreases s.len(),
{
    reveal(Seq::filter);
    if s.len() > 0 {
        assert(forall|i: int| 0 <= i < s.drop_last().len() ==> s.drop_last()[i] == s[i]);
        lemma_filter_none(s.drop_last(), pred);
        assert(!pred(s.last()));
        assert(s.filter(pred) =~= Seq::<Content>::empty());
    } else {
        assert(s.filter(pred) =~= Seq::<Content>::empty());
    }
}

proof fn lemma_lex_le_refl(a: Seq<char>)
    ensures
        lex_le(a, a),
    decreases a.len(),
{
    if a.len() > 0 {
        lemma_lex_le_refl(a.drop_first());
    }
}

proof fn lemma_le_lt_lt(a: Seq<char>, b: Seq<char>, c: Seq<char>)
    requires
        lex_le(a, b),
        lex_le(b, c),
        !lex_le(c, b),
    ensures
        lex_le(a, c),
        !lex_le(c, a),
{
    lemma_lex_le_trans(a, b, c);
    if lex_le(c, a) {
        lemma_lex_le_trans(c, a, b);
    }
}

/// Whether `a` is lexicographically at most `b`.
pub fn str_lex_le(a: &str, b: &str) -> (r: bool)
    ensures
        r == lex_le(a@, b@),
{
    let t = chars_of(a);
    let u = chars_of(b);
    let na = t.len();
    let nb = u.len();
    let mut i: usize = 0;
    proof {
        assert(a@.skip(0) =~= a@);
        assert(b@.skip(0) =~= b@);
    }
    while i < na && i < nb
        invariant
            i <= na,
            i <= nb,
            na == a@.len(),
            nb == b@.len(),
            t@ == a@,
            u@ == b@,
            lex_le(a@, b@) == lex_le(a@.skip(i as int), b@.skip(i as int)),
            lex_le(b@, a@) == lex_le(b@.skip(i as int), a@.skip(i as int)),
        decreases na - i,
    {
        let ca = t[i] as u32;
        let cb = u[i] as u32;
        if ca < cb {
            proof {
                assert(lex_le(a@.skip(i as int), b@.skip(i as int)));
            }
            return true;
        }
        if ca > cb {
            proof {
                assert(!lex_le(a@.skip(i as int), b@.skip(i as int)));
            }
            return false;
        }
        proof {
            assert(a@.skip(i as int).drop_first() =~= a@.skip(i + 1));
            assert(b@.skip(i as int).drop_first() =~= b@.skip(i + 1));
            assert(lex_le(a@.skip(i as int), b@.skip(i as int)) == lex_le(
                a@.skip(i + 1),
                b@.skip(i + 1),
            ));
            assert(lex_le(b@.skip(i as int), a@.skip(i as int)) == lex_le(
                b@.skip(i + 1),
                a@.skip(i + 1),
            ));
        }
        i += 1;
    }
    if i == na {
        proof {
            assert(a@.skip(i as int).len() == 0);
            assert(lex_le(a@.skip(i as int), b@.skip(i as int)));
        }
        true
    } else {
        proof {
            assert(b@.skip(i as int).len() == 0);
            assert(a@.skip(i as int).len() > 0);
            assert(!lex_le(a@.skip(i as int), b@.skip(i as int)));
        }
        false
    }
}

fn page_date_key(c: &Content) -> (r: String)
    ensures
        r@ == date_key(*c),
{
    match &c.frontmatter.date {
        Some(d) => d.clone(),
        None => String::new(),
    }
}

proof fn lemma_insert_to_multiset(s: Seq<Content>, j: int, x: Content)
    requires
        0 <= j <= s.len(),
    ensures
        s.insert(j, x).to_multiset() == s.to_multiset().insert(x),
{
    let left = s.subrange(0, j);
    let right = s.subrange(j, s.len() as int);
    assert(s.insert(j, x) =~= left + (seq![x] + right));
    lemma_multiset_commutative(left, seq![x] + right);
    lemma_multiset_commutative(seq![x], right);
    assert(seq![x].to_multiset() =~= Multiset::empty().insert(x));
    lemma_multiset_commutative(left, right);
    assert(left + right =~= s);
    assert(s.insert(j, x).to_multiset() =~= s.to_multiset().insert(x));
}

/// Stable-sorts pages descending by date string: each page is inserted
/// after every already-placed page whose key is at least its own. The
/// result is a permutation of the input in descending date order, and the
/// sort is stable: the pages of any one date key keep their input order.
pub fn sort_pages(pages: Vec<Content>) -> (r: Vec<Content>)
    ensures
        sorted_by_date_desc(r@),
        r@.to_multiset() == pages@.to_multiset(),
        forall|k: Seq<char>| #[trigger] r@.filter(keyed(k)) == pages@.filter(keyed(k)),
{
    let mut rest = pages;
    let mut sorted: Vec<Content> = Vec::new();
    proof {
        assert(sorted@.to_multiset().add(rest@.to_multiset()) =~= pages@.to_multiset());
        assert forall|k: Seq<char>|
            #[trigger] sorted@.filter(keyed(k)) + rest@.filter(keyed(k)) == pages@.filter(
            keyed(k),
        ) by {
            reveal(Seq::filter);
            assert(sorted@.filter(keyed(k)) =~= Seq::<Content>::empty());
            assert(Seq::<Content>::empty() + rest@.filter(keyed(k)) =~= rest@.filter(keyed(k)));
        }
    }
    while rest.len() > 0
        invariant
            sorted_by_date_desc(sorted@),
            sorted@.to_multiset().add(rest@.to_multiset()) == pages@.to_multiset(),
            forall|k: Seq<char>|
                #[trigger] sorted@.filter(keyed(k)) + rest@.filter(keyed(k)) == pages@.filter(
                    keyed(k),
                ),
        decreases rest.len(),
    {
        let ghost rest0 = rest@;
        let x = rest.remove(0);
        proof {
            assert(rest@ =~= rest0.drop_first());
            assert(rest0.to_multiset() =~= rest@.to_multiset().insert(x)) by {
                assert(rest0.remove(0).to_multiset() =~= rest0.to_multiset().remove(rest0[0]));
                assert(rest0.to_multiset().contains(rest0[0]));
            }
        }
        let key = page_date_key(&x);
        let n = sorted.len();
        let mut j: usize = 0;
        loop
            invariant
                j <= n,
                n == sorted@.len(),
                key@ == date_key(x),
                forall|p: int|
                    0 <= p < j ==> !(lex_le(date_key(sorted@[p]), date_key(x)) && !lex_le(
                        date_key(x),
                        date_key(sorted@[p]),
                    )),
            ensures
                j <= n,
                n == sorted@.len(),
                forall|p: int|
                    0 <= p < j ==> !(lex_le(date_key(sorted@[p]), date_key(x)) && !lex_le(
                        date_key(x),
                        date_key(sorted@[p]),
                    )),
                j < n ==> (lex_le(date_key(sorted@[j as int]), date_key(x)) && !lex_le(
                    date_key(x),
                    date_key(sorted@[j as int]),
                )),
            decreases n - j,
        {
            if j >= n {
                break;
            }
            let kj = page_date_key(&sorted[j]);
            let lt = str_lex_le(kj.as_str(), key.as_str()) && !str_lex_le(
                key.as_str(),
                kj.as_str(),
            );
            if lt {
                break;
            }
            j += 1;
        }
        let ghost old_sorted = sorted@;
        proof {
            if j < n {
                assert(lex_le(date_key(old_sorted[j as int]), date_key(x)) && !lex_le(
                    date_key(x),
                    date_key(old_sorted[j as int]),
                ));
            }
        }
        sorted.insert(j, x);
        proof {
            assert(sorted@ == old_sorted.insert(j as int, x));
            lemma_insert_to_multiset(old_sorted, j as int, x);
            assert(sorted@.to_multiset().add(rest@.to_multiset()) =~= pages@.to_multiset());
            assert forall|p: int, q: int|
                0 <= p < q < sorted@.len() implies lex_le(
                date_key(sorted@[q]),
                date_key(sorted@[p]),
            ) by {
                let ghost jj = j as int;
                if q < jj {
                    assert(sorted@[p] == old_sorted[p] && sorted@[q] == old_sorted[q]);
                } else if p > jj {
                    assert(sorted@[p] == old_sorted[p - 1] && sorted@[q] == old_sorted[q - 1]);
                } else if p < jj && q == jj {
                    // x inserted after a prefix none of which is strictly below it
                    assert(sorted@[q] == x && sorted@[p] == old_sorted[p]);
                    lemma_lex_le_total(date_key(old_sorted[p]), date_key(x));
                    if !lex_le(date_key(x), date_key(old_sorted[p])) {
                        assert(lex_le(date_key(old_sorted[p]), date_key(x)));
                        assert(false);
                    }
                } else if p == jj && q > jj {
                    // everything after the insertion point is at most the
                    // first strictly-smaller element
                    assert(sorted@[p] == x && sorted@[q] == old_sorted[q - 1]);
                    assert(lex_le(date_key(old_sorted[jj]), date_key(x)));
                    if q - 1 > jj {
                        assert(lex_le(date_key(old_sorted[q - 1]), date_key(old_sorted[jj])));
                        lemma_lex_le_trans(
                            date_key(old_sorted[q - 1]),
                            date_key(old_sorted[jj]),
                            date_key(x),
                        );
                    }
                } else if p < jj && q > jj {
                    assert(sorted@[p] == old_sorted[p] && sorted@[q] == old_sorted[q - 1]);
                }
            }
            assert forall|k: Seq<char>|
                #[trigger] sorted@.filter(keyed(k)) + rest@.filter(keyed(k)) == pages@.filter(
                keyed(k),
            ) by {
                reveal(Seq::filter);
                let pk = keyed(k);
                let left = old_sorted.subrange(0, j as int);
                let right = old_sorted.subrange(j as int, old_sorted.len() as int);
                assert(sorted@ =~= left + (seq![x] + right));
                Seq::<Content>::filter_distributes_over_add(left, seq![x] + right, pk);
                Seq::<Content>::filter_distributes_over_add(seq![x], right, pk);
                Seq::<Content>::filter_distributes_over_add(left, right, pk);
                assert(left + right =~= old_sorted);
                assert(seq![x].drop_last() =~= Seq::<Content>::empty());
                assert(Seq::<Content>::empty().filter(pk) =~= Seq::<Content>::empty());
                assert(rest0 =~= seq![x] + rest@);
                Seq::<Content>::filter_distributes_over_add(seq![x], rest@, pk);
                assert(old_sorted.filter(pk) + rest0.filter(pk) == pages@.filter(pk));
                if pk(x) {
                    assert(seq![x].last() == x);
                    assert(Seq::<Content>::empty().push(x) =~= seq![x]);
                    assert(seq![x].filter(pk) =~= seq![x]);
                    assert forall|q: int| 0 <= q < right.len() implies !pk(#[trigger] right[q]) by {
                        assert(right[q] == old_sorted[j + q]);
                        assert(lex_le(date_key(old_sorted[j as int]), date_key(x)) && !lex_le(
                            date_key(x),
                            date_key(old_sorted[j as int]),
                        ));
                        if q > 0 {
                            assert(lex_le(
                                date_key(old_sorted[j + q]),
                                date_key(old_sorted[j as int]),
                            ));
                            lemma_le_lt_lt(
                                date_key(old_sorted[j + q]),
                                date_key(old_sorted[j as int]),
                                date_key(x),
                            );
                        }
                        if pk(right[q]) {
                            assert(date_key(old_sorted[j + q]) == date_key(x));
                            lemma_lex_le_refl(date_key(x));
                            assert(false);
                        }
                    }
                    lemma_filter_none(right, pk);
                    assert(sorted@.filter(pk) =~= old_sorted.filter(pk) + seq![x]);
                    assert(rest0.filter(pk) =~= seq![x] + rest@.filter(pk));
                    assert(sorted@.filter(pk) + rest@.filter(pk) =~= old_sorted.filter(pk)
                        + rest0.filter(pk));
                } else {
                    assert(seq![x].last() == x);
                    assert(seq![x].filter(pk) =~= Seq::<Content>::empty());
                    assert(sorted@.filter(pk) =~= old_sorted.filter(pk));
                    assert(rest0.filter(pk) =~= rest@.filter(pk));
                    assert(sorted@.filter(pk) + rest@.filter(pk) =~= old_sorted.filter(pk)
                        + rest0.filter(pk));
                }
            }
        }
    }
    proof {
        assert(rest@.to_multiset() =~= Multiset::<Content>::empty());
        assert(sorted@.to_multiset().add(rest@.to_multiset()) =~= sorted@.to_multiset());
        assert forall|k: Seq<char>|
            #[trigger] sorted@.filter(keyed(k)) == pages@.filter(keyed(k)) by {
            reveal(Seq::filter);
            assert(rest@.filter(keyed(k)) =~= Seq::<Content>::empty());
            assert(sorted@.filter(keyed(k)) + Seq::<Content>::empty() =~= sorted@.filter(
                keyed(k),
            ));
        }
    }
    sorted
}

/// The extension of a `/`-separated path: what follows the last dot of
/// its final component, when the component has a non-empty stem.
pub open spec fn path_ext(p: Seq<char>) -> Option<Seq<char>> {
    let name = file_name_of(p);
    match rfind_spec(name, '.') {
        Some(j) => if j > 0 {
            Some(name.subrange(j + 1, name.len() as int))
        } else {
            None
        },
        None => None,
    }
}

/// A discovered path is kept exactly when its extension is in the
/// allow-list and no ignore pattern occurs in the full path. An empty
/// ignore pattern occurs in every path.
pub open spec fn keep_path(p: Seq<char>, exts: Seq<String>, igns: Seq<String>) -> bool {
    (match path_ext(p) {
        Some(e) => exists|k: int| 0 <= k < exts.len() && exts[k]@ == e,
        None => false,
    }) && (forall|k: int|
        0 <= k < igns.len() ==> (igns[k]@.len() > 0 && !occurs_from(p, #[trigger] igns[k]@, 0)))
}

/// The kept paths from position `i` on, in order.
pub open spec fn spec_selected(
    paths: Seq<String>,
    exts: Seq<String>,
    igns: Seq<String>,
    i: int,
) -> Seq<String>
    decreases paths.len() - i,
{
    if i < 0 || i >= paths.len() {
        Seq::empty()
    } else if keep_path(paths[i]@, exts, igns) {
        seq![paths[i]] + spec_selected(paths, exts, igns, i + 1)
    } else {
        spec_selected(paths, exts, igns, i + 1)
    }
}

fn path_has_allowed_ext(p: &String, exts: &Vec<String>) -> (r: bool)
    ensures
        r == match path_ext(p@) {
            Some(e) => exists|k: int| 0 <= k < exts@.len() && exts@[k]@ == e,
            None => false,
        },
{
    let t = chars_of(p.as_str());
    let tlen = t.len();
    let start: usize = match rfind_char(&t, '/') {
        Some(i) => i + 1,
        None => 0,
    };
    let name = sub_chars(&t, start, tlen);
    proof {
        assert(name@ == file_name_of(p@));
    }
    let nlen = name.len();
    let j = match rfind_char(&name, '.') {
        Some(j) => j,
        None => {
            return false;
        },
    };
    if j == 0 {
        return false;
    }
    let ext = sub_chars(&name, j + 1, nlen);
    let ext_str = string_from_chars(&ext);
    let m = exts.len();
    let mut k: usize = 0;
    while k < m
        invariant
            k <= m,
            m == exts@.len(),
            ext_str@ == path_ext(p@)->0,
            path_ext(p@) is Some,
            forall|q: int| 0 <= q < k ==> exts@[q]@ != ext_str@,
        decreases m - k,
    {
        if str_eq(exts[k].as_str(), ext_str.as_str()) {
            return true;
        }
        k += 1;
    }
    false
}

fn path_ignored(p: &String, igns: &Vec<String>) -> (r: bool)
    ensures
        r == exists|k: int|
            0 <= k < igns@.len() && (igns@[k]@.len() == 0 || occurs_from(p@, #[trigger] igns@[k]@, 0)),
{
    let t = chars_of(p.as_str());
    let m = igns.len();
    let mut k: usize = 0;
    while k < m
        invariant
            k <= m,
            m == igns@.len(),
            t@ == p@,
            forall|q: int|
                0 <= q < k ==> !(igns@[q]@.len() == 0 || occurs_from(p@, #[trigger] igns@[q]@, 0)),
        decreases m - k,
    {
        let ig = chars_of(igns[k].as_str());
        if ig.len() == 0 {
            return true;
        }
        if contains_sub(&t, &ig) {
            return true;
        }
        k += 1;
    }
    false
}

/// Keeps the discovered paths whose extension is allowed and which no
/// ignore pattern occurs in, in discovery order.
pub fn select_content_paths(paths: &Vec<String>, exts: &Vec<String>, igns: &Vec<String>) -> (r:
    Vec<String>)
    ensures
        r@ == spec_selected(paths@, exts@, igns@, 0),
{
    let mut out: Vec<String> = Vec::new();
    let n = paths.len();
    let mut i: usize = 0;
    proof {
        assert(out@ + spec_selected(paths@, exts@, igns@, 0) =~= spec_selected(
            paths@,
            exts@,
            igns@,
            0,
        ));
    }
    while i < n
        invariant
            i <= n,
            n == paths@.len(),
            out@ + spec_selected(paths@, exts@, igns@, i as int) == spec_selected(
                paths@,
                exts@,
                igns@,
                0,
            ),
        decreases n - i,
    {
        let ghost out0 = out@;
        let p = &paths[i];
        let kept = path_has_allowed_ext(p, exts) && !path_ignored(p, igns);
        proof {
            assert(kept == keep_path(paths@[i as int]@, exts@, igns@));
        }
        if kept {
            out.push(p.clone());
            proof {
                assert(out@ =~= out0 + seq![paths@[i as int]]);
                assert(out@ + spec_selected(paths@, exts@, igns@, i + 1) =~= out0 + (seq![
                    paths@[i as int],
                ] + spec_selected(paths@, exts@, igns@, i + 1)));
            }
        }
        i += 1;
    }
    proof {
        assert(spec_selected(paths@, exts@, igns@, n as int) =~= Seq::<String>::empty());
        assert(out@ =~= out@ + spec_selected(paths@, exts@, igns@, n as int));
    }
    out
}

/// `s` is the summary of the page `c`: the effective title, and the
/// declared slug and date as they stand.
pub open spec fn summary_matches(s: PageSummary, c: Content) -> bool {
    s.title@ == c.spec_title() && s.slug.deep_view() == c.frontmatter.slug.deep_view()
        && s.date.deep_view() == c.frontmatter.date.deep_view()
}

/// The summary list of the given pages, in order.
pub fn page_summaries(pages: &Vec<Content>) -> (r: Vec<PageSummary>)
    ensures
        r@.len() == pages@.len(),
        forall|i: int| 0 <= i < pages@.len() ==> summary_matches(#[trigger] r@[i], pages@[i]),
{
    let mut out: Vec<PageSummary> = Vec::new();
    let n = pages.len();
    let mut i: usize = 0;
    while i < n
        invariant
            i <= n,
            n == pages@.len(),
            out@.len() == i,
            forall|j: int| 0 <= j < i ==> summary_matches(#[trigger] out@[j], pages@[j]),
        decreases n - i,
    {
        let c = &pages[i];
        let title = c.title_or_stem();
        let slug = match &c.frontmatter.slug {
            Some(s) => Some(s.clone()),
            None => None,
        };
        let date = match &c.frontmatter.date {
            Some(d) => Some(d.clone()),
            None => None,
        };
        out.push(PageSummary { title, slug, date });
        i += 1;
    }
    out
}

/// One planned output file: a path relative to the output root, and the
/// exact text to write there.
#[derive(Debug)]
pub struct OutputFile {
    pub path: String,
    pub text: String,
}

/// Everything one deterministic build pass produces: the rendered pages in
/// their global order, and the enabled artifacts.
#[derive(Debug)]
pub struct BuildPlan {
    pub clean_first: bool,
    pub output_dir: String,
    pub pages: Vec<OutputFile>,
    pub sitemap: Option<String>,
    pub robots: Option<String>,
    pub feed: Option<String>,
    pub build_info: String,
}

/// The build orchestrator: the validated configuration, the compiled
/// template registry, and the build's ambient data — its version string
/// and the build timestamp in its two renderings — threaded in once.
pub struct Builder {
    pub config: RawConfig,
    pub template_engine: TemplateEngine,
    pub version: String,
    pub build_time_rfc3339: String,
    pub build_time_rfc2822: String,
}

/// `out` is the rendered, minified markup of page `c`.
pub open spec fn page_rendered(
    engine: TemplateEngine,
    config: RawConfig,
    ctx: GlobalContext,
    c: Content,
    out: Seq<char>,
) -> bool {
    let name = engine.spec_resolve(c, config.template.default_layout@);
    let text = crate::json::spec_json_meta(
        crate::context::render_data_model(c, config, ctx, None),
    );
    match crate::template::json_value_of(text) {
        Some(v) => match crate::template::hb_output(engine.hb, name, v) {
            Ok(markup) => out == crate::minify::spec_minify(markup, config.build.minify.html),
            Err(_) => false,
        },
        None => false,
    }
}

/// The number of sources that parse and are not skipped, from `i` on.
pub open spec fn spec_kept_count(
    sources: Seq<(String, String)>,
    show_drafts: bool,
    i: int,
) -> int
    decreases sources.len() - i,
{
    if i < 0 || i >= sources.len() {
        0
    } else {
        let here: int = match crate::frontmatter::parse_ok_model(sources[i].1@) {
            Some(mb) => if mb.0.draft matches Some(d) && d && !show_drafts {
                0
            } else {
                1
            },
            None => 0,
        };
        here + spec_kept_count(sources, show_drafts, i + 1)
    }
}

/// The metadata model marks the page as skipped.
pub open spec fn model_skipped(m: crate::frontmatter::FmModel, show_drafts: bool) -> bool {
    match m.draft {
        Some(d) => d && !show_drafts,
        None => false,
    }
}

/// `raw` holds exactly the parses of the non-skipped sources among the
/// first `i`, in source order.
pub open spec fn kept_prefix(
    sources: Seq<(String, String)>,
    show_drafts: bool,
    i: int,
    raw: Seq<Content>,
) -> bool
    decreases i,
{
    if i <= 0 {
        raw.len() == 0
    } else {
        match crate::frontmatter::parse_ok_model(sources[i - 1].1@) {
            Some(mb) => if model_skipped(mb.0, show_drafts) {
                kept_prefix(sources, show_drafts, i - 1, raw)
            } else {
                raw.len() > 0 && content_from(raw.last(), sources[i - 1].0@, sources[i - 1].1@)
                    && kept_prefix(sources, show_drafts, i - 1, raw.drop_last())
            },
            None => false,
        }
    }
}

/// `raw` holds exactly the parses of the non-skipped sources, in order:
/// every non-skipped source yields its page, none is dropped, none
/// repeats.
pub open spec fn kept_parses(
    sources: Seq<(String, String)>,
    show_drafts: bool,
    raw: Seq<Content>,
) -> bool {
    kept_prefix(sources, show_drafts, sources.len() as int, raw)
}

/// `sorted` is the build's global page order: a descending arrangement of
/// exactly the non-skipped parses of the sources, the pages of any one
/// date key keeping their source order.
pub open spec fn sorted_kept(
    sources: Seq<(String, String)>,
    show_drafts: bool,
    sorted: Seq<Content>,
) -> bool {
    &&& sorted_by_date_desc(sorted)
    &&& exists|raw: Seq<Content>|
        #[trigger] kept_parses(sources, show_drafts, raw) && (forall|k: Seq<char>|
            sorted.filter(keyed(k)) == #[trigger] raw.filter(keyed(k)))
}

/// The render of page `c` succeeds: its data text parses as JSON and the
/// resolved template's output on it is `Ok`.
pub open spec fn page_render_succeeds(
    engine: TemplateEngine,
    config: RawConfig,
    ctx: GlobalContext,
    c: Content,
) -> bool {
    let name = engine.spec_resolve(c, config.template.default_layout@);
    let text = crate::json::spec_json_meta(
        crate::context::render_data_model(c, config, ctx, None),
    );
    match crate::template::json_value_of(text) {
        Some(v) => crate::template::hb_output(engine.hb, name, v) is Ok,
        None => false,
    }
}

/// The context carries the given timestamp and the summaries of the given
/// pages.
pub open spec fn ctx_matches(ctx: GlobalContext, pages: Seq<Content>, bt: Seq<char>) -> bool {
    &&& ctx.build_time@ == bt
    &&& ctx.pages@.len() == pages.len()
    &&& forall|i: int| 0 <= i < pages.len() ==> summary_matches(#[trigger] ctx.pages@[i], pages[i])
}

/// A successful plan is realized by some page sequence and context: the
/// pages are exactly the parses of the non-skipped sources — every one of
/// them, none dropped, none repeated — at least one, in descending date
/// order with equal dates keeping source order; the context carries the
/// build timestamp and their summaries; each planned page file carries the
/// page's output location and its rendered, minified markup; and each
/// artifact is present exactly when enabled, with its exact document
/// text.
pub open spec fn plan_realizes(
    plan: BuildPlan,
    pages: Seq<Content>,
    ctx: GlobalContext,
    config: RawConfig,
    engine: TemplateEngine,
    version: Seq<char>,
    bt3339: Seq<char>,
    bt2822: Seq<char>,
    sources: Seq<(String, String)>,
) -> bool {
    &&& pages.len() > 0
    &&& sorted_by_date_desc(pages)
    &&& sorted_kept(sources, config.content.drafts, pages)
    &&& forall|i: int|
        0 <= i < pages.len() ==> !(#[trigger] pages[i]).spec_should_skip(config.content.drafts)
    &&& forall|i: int|
        0 <= i < pages.len() ==> exists|k: int|
            0 <= k < sources.len() && content_from(#[trigger] pages[i], sources[k].0@, sources[k].1@)
    &&& ctx.build_time@ == bt3339
    &&& ctx.pages@.len() == pages.len()
    &&& forall|i: int|
        0 <= i < pages.len() ==> summary_matches(#[trigger] ctx.pages@[i], pages[i])
    &&& plan.clean_first == config.build.clean_build
    &&& plan.output_dir@ == config.build.output_dir@
    &&& plan.pages@.len() == pages.len()
    &&& forall|i: int|
        0 <= i < pages.len() ==> (#[trigger] plan.pages@[i]).path@ == pages[i].spec_output_rel()
            && page_rendered(engine, config, ctx, pages[i], plan.pages@[i].text@)
    &&& match plan.sitemap {
        Some(s) => config.build.generate.sitemap && match config.base_url {
            Some(b) => s@ == crate::artifacts::spec_sitemap(pages, b@, config.content.drafts),
            None => false,
        },
        None => !config.build.generate.sitemap,
    }
    &&& match plan.robots {
        Some(s) => config.build.generate.robots && match config.base_url {
            Some(b) => s@ == crate::artifacts::spec_robots(b@),
            None => false,
        },
        None => !config.build.generate.robots,
    }
    &&& match plan.feed {
        Some(s) => config.build.generate.feed && match config.base_url {
            Some(b) => s@ == crate::artifacts::spec_feed(
                pages,
                config.title@,
                config.description,
                b@,
                bt2822,
                config.content.drafts,
            ),
            None => false,
        },
        None => !config.build.generate.feed,
    }
    &&& plan.build_info@ == crate::json::spec_json_meta(
        crate::artifacts::build_info_model(version, bt3339, config.version@),
    )
}

impl Builder {
    pub fn new(
        config: RawConfig,
        template_engine: TemplateEngine,
        version: String,
        build_time_rfc3339: String,
        build_time_rfc2822: String,
    ) -> (r: Builder)
        ensures
            r.config == config,
            r.template_engine == template_engine,
            r.version == version,
            r.build_time_rfc3339 == build_time_rfc3339,
            r.build_time_rfc2822 == build_time_rfc2822,
    {
        Builder { config, template_engine, version, build_time_rfc3339, build_time_rfc2822 }
    }

    /// One deterministic build pass over the given source files (path and
    /// text per file). The sources are parsed, skipped drafts dropped, the
    /// rest sorted descending by date; every page is rendered and minified
    /// in that order; the enabled artifacts and the build metadata are
    /// rendered from the same page set. The first failure aborts the pass:
    /// a `Build` error exactly when every source parses and no page
    /// remains after filtering, a `Config` error for an enabled artifact
    /// without a base URL; and the pass is owed success when every source
    /// parses, a page is kept, the enabled artifacts have their base URL,
    /// and every kept page's template output exists.
    pub fn build(&self, sources: &Vec<(String, String)>) -> (r: Result<BuildPlan, RawSSGError>)
        ensures
            r matches Ok(plan) ==> exists|pages: Seq<Content>, ctx: GlobalContext|
                plan_realizes(
                    plan,
                    pages,
                    ctx,
                    self.config,
                    self.template_engine,
                    self.version@,
                    self.build_time_rfc3339@,
                    self.build_time_rfc2822@,
                    sources@,
                ),
            match r {
                Ok(_) => true,
                Err(e) => match e {
                    RawSSGError::Build(m) => m@ == "No content files found"@ && (forall|k: int|
                        0 <= k < sources@.len() ==> crate::frontmatter::parse_ok_model(
                            #[trigger] sources@[k].1@,
                        ) is Some) && spec_kept_count(sources@, self.config.content.drafts, 0)
                        == 0,
                    RawSSGError::Config(m) => self.config.base_url is None && (
                    if self.config.build.generate.sitemap {
                        m@ == "Base URL required for sitemap"@
                    } else if self.config.build.generate.robots {
                        m@ == "Base URL required for robots.txt"@
                    } else {
                        self.config.build.generate.feed && m@ == "Base URL required for feed"@
                    }),
                    _ => true,
                },
            },
            (forall|k: int|
                0 <= k < sources@.len() ==> crate::frontmatter::parse_ok_model(
                    #[trigger] sources@[k].1@,
                ) is Some) && spec_kept_count(sources@, self.config.content.drafts, 0) == 0 ==> (r
                matches Err(e) && e matches RawSSGError::Build(_)),
            ((forall|k: int|
                0 <= k < sources@.len() ==> crate::frontmatter::parse_ok_model(
                    #[trigger] sources@[k].1@,
                ) is Some) && spec_kept_count(sources@, self.config.content.drafts, 0) > 0 && ((
            self.config.build.generate.sitemap || self.config.build.generate.robots
                || self.config.build.generate.feed) ==> self.config.base_url is Some) && (
            forall|sorted: Seq<Content>, ctx: GlobalContext|
                #![trigger sorted_kept(sources@, self.config.content.drafts, sorted), ctx_matches(ctx, sorted, self.build_time_rfc3339@)]
                (sorted_kept(sources@, self.config.content.drafts, sorted) && ctx_matches(
                    ctx,
                    sorted,
                    self.build_time_rfc3339@,
                )) ==> forall|j: int|
                    0 <= j < sorted.len() ==> page_render_succeeds(
                        self.template_engine,
                        self.config,
                        ctx,
                        #[trigger] sorted[j],
                    ))) ==> r is Ok,
    {
        let show_drafts = self.config.content.drafts;
        let mut pages: Vec<Content> = Vec::new();
        let n = sources.len();
        let mut i: usize = 0;
        while i < n
            invariant
                i <= n,
                n == sources@.len(),
                show_drafts == self.config.content.drafts,
                pages@.len() == spec_kept_count(sources@, show_drafts, 0) - spec_kept_count(
                    sources@,
                    show_drafts,
                    i as int,
                ),
                kept_prefix(sources@, show_drafts, i as int, pages@),
                forall|k: int|
                    0 <= k < i ==> crate::frontmatter::parse_ok_model(
                        #[trigger] sources@[k].1@,
                    ) is Some,
                forall|j: int|
                    0 <= j < pages@.len() ==> !(#[trigger] pages@[j]).spec_should_skip(show_drafts),
                forall|j: int|
                    0 <= j < pages@.len() ==> exists|k: int|
                        0 <= k < sources@.len() && content_from(
                            #[trigger] pages@[j],
                            sources@[k].0@,
                            sources@[k].1@,
                        ),
            decreases n - i,
        {
            let (path, text) = &sources[i];
            let ghost pages0 = pages@;
            match Content::parse(path.as_str(), text.as_str()) {
                Ok(c) => {
                    proof {
                        assert(content_from(c, sources@[i as int].0@, sources@[i as int].1@));
                        assert(c.frontmatter.model().draft == c.frontmatter.draft);
                    }
                    if !c.should_skip(show_drafts) {
                        pages.push(c);
                        proof {
                            assert(pages@.last() == c);
                            assert(pages@.drop_last() =~= pages0);
                            assert(kept_prefix(sources@, show_drafts, i + 1, pages@));
                        }
                    } else {
                        proof {
                            assert(kept_prefix(sources@, show_drafts, i + 1, pages@));
                        }
                    }
                },
                Err(e) => {
                    proof {
                        assert(crate::frontmatter::parse_ok_model(sources@[i as int].1@) is None);
                        assert(e matches RawSSGError::Frontmatter(_) || e
                            matches RawSSGError::Yaml(_));
                    }
                    return Err(e);
                },
            }
            proof {
                assert(spec_kept_count(sources@, show_drafts, i as int) == (match crate::frontmatter::parse_ok_model(
                    sources@[i as int].1@,
                ) {
                    Some(mb) => if mb.0.draft matches Some(d) && d && !show_drafts {
                        0int
                    } else {
                        1int
                    },
                    None => 0int,
                }) + spec_kept_count(sources@, show_drafts, i + 1));
            }
            i += 1;
        }
        proof {
            assert(spec_kept_count(sources@, show_drafts, n as int) == 0);
        }
        if pages.len() == 0 {
            return Err(RawSSGError::Build(String::from_str("No content files found")));
        }
        proof {
            assert(spec_kept_count(sources@, show_drafts, 0) > 0);
            assert(kept_parses(sources@, show_drafts, pages@));
        }
        let ghost unsorted = pages@;
        let sorted = sort_pages(pages);
        proof {
            assert forall|j: int| 0 <= j < sorted@.len() implies !(#[trigger] sorted@[j]).spec_should_skip(
                show_drafts,
            ) && exists|k: int|
                0 <= k < sources@.len() && content_from(
                    sorted@[j],
                    sources@[k].0@,
                    sources@[k].1@,
                ) by {
                assert(sorted@.contains(sorted@[j]));
                assert(sorted@.to_multiset().contains(sorted@[j]));
                assert(unsorted.to_multiset().contains(sorted@[j]));
                assert(unsorted.contains(sorted@[j]));
                let w = choose|w: int| 0 <= w < unsorted.len() && unsorted[w] == sorted@[j];
                assert(!unsorted[w].spec_should_skip(show_drafts));
            }
            assert(sorted_kept(sources@, show_drafts, sorted@)) by {
                assert(kept_parses(sources@, show_drafts, unsorted) && (forall|k: Seq<char>|
                    sorted@.filter(keyed(k)) == #[trigger] unsorted.filter(keyed(k))));
            }
        }
        let summaries = page_summaries(&sorted);
        let ctx = GlobalContext { build_time: self.build_time_rfc3339.clone(), pages: summaries };
        proof {
            assert(ctx_matches(ctx, sorted@, self.build_time_rfc3339@));
        }
        let mut outs: Vec<OutputFile> = Vec::new();
        let total = sorted.len();
        let mut p: usize = 0;
        while p < total
            invariant
                p <= total,
                total == sorted@.len(),
                show_drafts == self.config.content.drafts,
                spec_kept_count(sources@, show_drafts, 0) > 0,
                sorted_kept(sources@, show_drafts, sorted@),
                ctx_matches(ctx, sorted@, self.build_time_rfc3339@),
                outs@.len() == p,
                forall|j: int|
                    0 <= j < p ==> (#[trigger] outs@[j]).path@ == sorted@[j].spec_output_rel()
                        && page_rendered(
                        self.template_engine,
                        self.config,
                        ctx,
                        sorted@[j],
                        outs@[j].text@,
                    ),
            decreases total - p,
        {
            let page = &sorted[p];
            let html = match self.template_engine.render_content(page, &self.config, &ctx, None) {
                Ok(h) => h,
                Err(e) => {
                    proof {
                        assert(e matches RawSSGError::Render(_) || e matches RawSSGError::Json(_));
                        assert(!page_render_succeeds(
                            self.template_engine,
                            self.config,
                            ctx,
                            sorted@[p as int],
                        ));
                    }
                    return Err(e);
                },
            };
            let text = self.template_engine.minify_html(
                html.as_str(),
                self.config.build.minify.html,
            );
            outs.push(OutputFile { path: page.output_rel(), text });
            p += 1;
        }
        let sitemap: Option<String> = if self.config.build.generate.sitemap {
            match &self.config.base_url {
                Some(b) => Some(
                    crate::artifacts::generate_sitemap(&sorted, b.as_str(), show_drafts),
                ),
                None => {
                    return Err(
                        RawSSGError::Config(String::from_str("Base URL required for sitemap")),
                    );
                },
            }
        } else {
            None
        };
        let robots: Option<String> = if self.config.build.generate.robots {
            match &self.config.base_url {
                Some(b) => Some(crate::artifacts::generate_robots(b.as_str())),
                None => {
                    return Err(
                        RawSSGError::Config(String::from_str("Base URL required for robots.txt")),
                    );
                },
            }
        } else {
            None
        };
        let feed: Option<String> = if self.config.build.generate.feed {
            match &self.config.base_url {
                Some(b) => Some(
                    crate::artifacts::generate_feed(
                        &sorted,
                        self.config.title.as_str(),
                        &self.config.description,
                        b.as_str(),
                        self.build_time_rfc2822.as_str(),
                        show_drafts,
                    ),
                ),
                None => {
                    return Err(
                        RawSSGError::Config(String::from_str("Base URL required for feed")),
                    );
                },
            }
        } else {
            None
        };
        let build_info = crate::artifacts::generate_build_info(
            self.version.as_str(),
            self.build_time_rfc3339.as_str(),
            self.config.version.as_str(),
        );
        let plan = BuildPlan {
            clean_first: self.config.build.clean_build,
            output_dir: self.config.build.output_dir.clone(),
            pages: outs,
            sitemap,
            robots,
            feed,
            build_info,
        };
        proof {
            assert(sorted@.to_multiset() == unsorted.to_multiset());
            assert(sorted@.len() == sorted@.to_multiset().len());
            assert(unsorted.len() == unsorted.to_multiset().len());
            assert(sorted@.len() == unsorted.len());
            assert(sorted@.len() > 0);
            assert(plan_realizes(
                plan,
                sorted@,
                ctx,
                self.config,
                self.template_engine,
                self.version@,
                self.build_time_rfc3339@,
                self.build_time_rfc2822@,
                sources@,
            ));
        }
        Ok(plan)
    }
}

} // verus!
