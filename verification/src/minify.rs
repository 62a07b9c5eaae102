//! A best-effort lexical HTML minifier: a single forward pass over the
//! character sequence as a state machine with mutually exclusive modes
//! (tag, attribute quote, comment, verbatim element), with bounded
//! lookahead for tag names and comment markers.

use vstd::prelude::*;
use vstd::string::StrSliceExecFns;
use crate::text::{is_space, is_space_char, spec_trim, spec_trim_end, spec_trim_start, string_from_chars, trim_chars};

verus! {

broadcast use vstd::std_specs::vec::group_vec_axioms, vstd::seq::group_seq_axioms;

/// The verbatim elements: their content passes through unmodified.
#[derive(Debug, Clone, Copy, PartialEq, Eq)]
pub enum VerbatimKind {
    Pre,
    Script,
    Style,
}

/// The minifier's mode between two characters of the input.
#[derive(Debug, Clone, Copy, PartialEq, Eq)]
pub struct MinState {
    /// Between `<` and the matching `>`.
    pub in_tag: bool,
    /// Inside a quoted attribute value, remembering the quote character.
    pub quote: Option<char>,
    /// Between a comment-open and comment-close marker.
    pub in_comment: bool,
    /// Inside a verbatim element, remembering which one.
    pub verbatim: Option<VerbatimKind>,
    /// The last character emitted so far was whitespace.
    pub last_ws: bool,
}

/// The state before any character is read. `last_ws` starts true so that
/// leading whitespace is suppressed rather than collapsed.
pub open spec fn init_state() -> MinState {
    MinState { in_tag: false, quote: None, in_comment: false, verbatim: None, last_ws: true }
}

/// An ASCII letter or digit: the characters that may form a tag name.
pub open spec fn is_name_char(c: char) -> bool {
    (97 <= c as u32 && c as u32 <= 122) || (65 <= c as u32 && c as u32 <= 90) || (48 <= c as u32
        && c as u32 <= 57)
}

/// An ASCII letter.
pub open spec fn is_alpha_char(c: char) -> bool {
    (97 <= c as u32 && c as u32 <= 122) || (65 <= c as u32 && c as u32 <= 90)
}

/// `a` equals `b` after ASCII-lowercasing `a` (`b` is already lowercase).
pub open spec fn lower_eq(a: char, b: char) -> bool {
    a as u32 == b as u32 || (65 <= a as u32 && a as u32 <= 90 && a as u32 + 32 == b as u32)
}

/// The name `n` matches the lowercase name `m`, case-insensitively.
pub open spec fn ci_eq(n: Seq<char>, m: Seq<char>) -> bool {
    n.len() == m.len() && forall|j: int| 0 <= j < n.len() ==> lower_eq(n[j], #[trigger] m[j])
}

/// The end of the maximal tag-name run starting at `i`.
pub open spec fn name_end(s: Seq<char>, i: int) -> int
    decreases s.len() - i,
{
    if 0 <= i < s.len() && is_name_char(s[i]) {
        name_end(s, i + 1)
    } else {
        i
    }
}

/// The name of a verbatim element, lowercase.
pub open spec fn vkind_name(v: VerbatimKind) -> Seq<char> {
    match v {
        VerbatimKind::Pre => "pre"@,
        VerbatimKind::Script => "script"@,
        VerbatimKind::Style => "style"@,
    }
}

/// Which verbatim element the name denotes, if any.
pub open spec fn vkind_of(name: Seq<char>) -> Option<VerbatimKind> {
    if ci_eq(name, "pre"@) {
        Some(VerbatimKind::Pre)
    } else if ci_eq(name, "script"@) {
        Some(VerbatimKind::Script)
    } else if ci_eq(name, "style"@) {
        Some(VerbatimKind::Style)
    } else {
        None
    }
}

/// A comment-open marker starts at `i`.
pub open spec fn comment_open_at(s: Seq<char>, i: int) -> bool {
    0 <= i && i + 4 <= s.len() && s[i] == '<' && s[i + 1] == '!' && s[i + 2] == '-' && s[i + 3]
        == '-'
}

/// A comment-close marker starts at `i`.
pub open spec fn comment_close_at(s: Seq<char>, i: int) -> bool {
    0 <= i && i + 3 <= s.len() && s[i] == '-' && s[i + 1] == '-' && s[i + 2] == '>'
}

/// An opening tag of a verbatim element starts at `i`: `<`, a letter, a
/// name run that ends before the input does, naming pre, script or style.
pub open spec fn opening_vkind(s: Seq<char>, i: int) -> Option<VerbatimKind> {
    if 0 <= i && i + 2 <= s.len() && s[i] == '<' && is_alpha_char(s[i + 1]) && name_end(s, i + 1)
        < s.len() {
        vkind_of(s.subrange(i + 1, name_end(s, i + 1)))
    } else {
        None
    }
}

/// The closing tag of the verbatim element `v` starts at `i`: `</`, the
/// element's name, `>` immediately after.
pub open spec fn closing_match(s: Seq<char>, i: int, v: VerbatimKind) -> bool {
    0 <= i && i + 2 <= s.len() && s[i] == '<' && s[i + 1] == '/' && name_end(s, i + 2) < s.len()
        && s[name_end(s, i + 2)] == '>' && ci_eq(s.subrange(i + 2, name_end(s, i + 2)), vkind_name(v))
}

/// What the single forward pass emits for the input from position `i` on,
/// in state `st`:
/// - inside a comment everything up to and including the close marker is
///   dropped;
/// - a comment-open marker outside quotes and outside verbatim mode starts
///   a comment;
/// - inside a verbatim element every character passes through unmodified,
///   until the matching closing tag, whose `<` is processed as a tag;
/// - an opening verbatim tag outside quotes enters verbatim mode;
/// - a quote inside a tag opens an attribute value, the same quote closes
///   it, and whitespace inside is preserved;
/// - outside quotes, `<` and `>` bound a tag;
/// - outside quotes and verbatim mode, a whitespace run collapses to one
///   space, suppressed entirely when the last emitted character is already
///   whitespace;
/// - every other character is emitted unchanged.
pub open spec fn mz(s: Seq<char>, i: int, st: MinState) -> Seq<char>
    decreases s.len() - i,
{
    if i < 0 || i >= s.len() {
        Seq::empty()
    } else {
        let c = s[i];
        if st.in_comment {
            if comment_close_at(s, i) {
                mz(s, i + 3, MinState { in_comment: false, ..st })
            } else {
                mz(s, i + 1, st)
            }
        } else if st.quote is None && st.verbatim is None && comment_open_at(s, i) {
            mz(s, i + 4, MinState { in_comment: true, ..st })
        } else if st.verbatim is Some {
            let v = st.verbatim->0;
            if closing_match(s, i, v) {
                seq!['<'] + mz(
                    s,
                    i + 1,
                    MinState {
                        in_tag: true,
                        quote: None,
                        in_comment: false,
                        verbatim: None,
                        last_ws: false,
                    },
                )
            } else {
                seq![c] + mz(s, i + 1, MinState { last_ws: is_space_char(c), ..st })
            }
        } else if st.quote is None && opening_vkind(s, i) is Some {
            let v = opening_vkind(s, i)->0;
            seq![c] + mz(
                s,
                i + 1,
                MinState {
                    in_tag: false,
                    quote: None,
                    in_comment: false,
                    verbatim: Some(v),
                    last_ws: false,
                },
            )
        } else if st.in_tag && st.quote is None && (c == '"' || c == '\'') {
            seq![c] + mz(s, i + 1, MinState { quote: Some(c), last_ws: false, ..st })
        } else if st.quote is Some {
            let q = st.quote->0;
            if c == q {
                seq![c] + mz(s, i + 1, MinState { quote: None, last_ws: false, ..st })
            } else {
                seq![c] + mz(s, i + 1, MinState { last_ws: is_space_char(c), ..st })
            }
        } else if c == '<' {
            seq![c] + mz(s, i + 1, MinState { in_tag: true, last_ws: false, ..st })
        } else if c == '>' {
            seq![c] + mz(s, i + 1, MinState { in_tag: false, last_ws: false, ..st })
        } else if is_space_char(c) {
            if st.last_ws {
                mz(s, i + 1, st)
            } else {
                seq![' '] + mz(s, i + 1, MinState { last_ws: true, ..st })
            }
        } else {
            seq![c] + mz(s, i + 1, MinState { last_ws: false, ..st })
        }
    }
}

/// The minified document: the single pass over the whole input, then the
/// whole document trimmed of leading and trailing whitespace.
pub open spec fn spec_minify_on(t: Seq<char>) -> Seq<char> {
    spec_trim(mz(t, 0, init_state()))
}

/// What minification returns: the input unchanged when disabled, the
/// minified document otherwise.
pub open spec fn spec_minify(t: Seq<char>, enabled: bool) -> Seq<char> {
    if enabled {
        spec_minify_on(t)
    } else {
        t
    }
}

fn is_name_char_x(c: char) -> (r: bool)
    ensures
        r == is_name_char(c),
{
    let u = c as u32;
    (97 <= u && u <= 122) || (65 <= u && u <= 90) || (48 <= u && u <= 57)
}

fn is_alpha_char_x(c: char) -> (r: bool)
    ensures
        r == is_alpha_char(c),
{
    let u = c as u32;
    (97 <= u && u <= 122) || (65 <= u && u <= 90)
}

fn name_end_x(t: &Vec<char>, i: usize) -> (e: usize)
    requires
        i <= t@.len(),
    ensures
        e == name_end(t@, i as int),
        i <= e <= t@.len(),
{
    let n = t.len();
    let mut k: usize = i;
    while k < n && is_name_char_x(t[k])
        invariant
            i <= k <= n,
            n == t@.len(),
            name_end(t@, i as int) == name_end(t@, k as int),
        decreases n - k,
    {
        proof {
            assert(name_end(t@, k as int) == name_end(t@, k + 1));
        }
        k += 1;
    }
    proof {
        assert(name_end(t@, k as int) == k as int);
    }
    k
}

/// The characters of `t` between `lo` and `hi` match the lowercase name
/// `m`, case-insensitively.
fn ci_eq_x(t: &Vec<char>, lo: usize, hi: usize, m: &str) -> (r: bool)
    requires
        lo <= hi <= t@.len(),
    ensures
        r == ci_eq(t@.subrange(lo as int, hi as int), m@),
{
    let mlen = m.unicode_len();
    if hi - lo != mlen {
        return false;
    }
    let mut j: usize = 0;
    while j < mlen
        invariant
            j <= mlen,
            mlen == m@.len(),
            lo + mlen == hi,
            hi <= t@.len(),
            forall|k: int| 0 <= k < j ==> lower_eq(t@.subrange(lo as int, hi as int)[k], m@[k]),
        decreases mlen - j,
    {
        let a = t[lo + j] as u32;
        let b = m.get_char(j) as u32;
        if !(a == b || (65 <= a && a <= 90 && a + 32 == b)) {
            proof {
                assert(t@.subrange(lo as int, hi as int)[j as int] == t@[lo + j]);
                assert(!lower_eq(t@.subrange(lo as int, hi as int)[j as int], m@[j as int]));
            }
            return false;
        }
        proof {
            assert(t@.subrange(lo as int, hi as int)[j as int] == t@[lo + j]);
        }
        j += 1;
    }
    true
}

fn opening_vkind_x(t: &Vec<char>, i: usize) -> (r: Option<VerbatimKind>)
    requires
        i < t@.len(),
    ensures
        r == opening_vkind(t@, i as int),
{
    let n = t.len();
    if !(2 <= n - i && t[i] == '<' && is_alpha_char_x(t[i + 1])) {
        return None;
    }
    let e = name_end_x(t, i + 1);
    if !(e < n) {
        return None;
    }
    if ci_eq_x(t, i + 1, e, "pre") {
        Some(VerbatimKind::Pre)
    } else if ci_eq_x(t, i + 1, e, "script") {
        Some(VerbatimKind::Script)
    } else if ci_eq_x(t, i + 1, e, "style") {
        Some(VerbatimKind::Style)
    } else {
        None
    }
}

fn closing_match_x(t: &Vec<char>, i: usize, v: VerbatimKind) -> (r: bool)
    requires
        i < t@.len(),
    ensures
        r == closing_match(t@, i as int, v),
{
    let n = t.len();
    if !(2 <= n - i && t[i] == '<' && t[i + 1] == '/') {
        return false;
    }
    let e = name_end_x(t, i + 2);
    if !(e < n) {
        return false;
    }
    if t[e] != '>' {
        return false;
    }
    match v {
        VerbatimKind::Pre => ci_eq_x(t, i + 2, e, "pre"),
        VerbatimKind::Script => ci_eq_x(t, i + 2, e, "script"),
        VerbatimKind::Style => ci_eq_x(t, i + 2, e, "style"),
    }
}

/// One step of the pass: consumes at least one character at `i`, appends
/// what the machine emits for it, and returns the next position and state.
#[verifier::rlimit(60)]
fn mstep(t: &Vec<char>, i: usize, st: MinState, out: &mut Vec<char>) -> (res: (usize, MinState))
    requires
        i < t@.len(),
    ensures
        i < res.0 <= t@.len(),
        old(out)@ + mz(t@, i as int, st) == final(out)@ + mz(t@, res.0 as int, res.1),
{
    let n = t.len();
    let c = t[i];
    let ghost out0 = out@;
    if st.in_comment {
        if 3 <= n - i && t[i] == '-' && t[i + 1] == '-' && t[i + 2] == '>' {
            proof {
                assert(comment_close_at(t@, i as int));
            }
            (i + 3, MinState { in_comment: false, ..st })
        } else {
            proof {
                assert(!comment_close_at(t@, i as int));
            }
            (i + 1, st)
        }
    } else if st.quote.is_none() && st.verbatim.is_none() && 4 <= n - i && t[i] == '<' && t[i + 1]
        == '!' && t[i + 2] == '-' && t[i + 3] == '-' {
        proof {
            assert(comment_open_at(t@, i as int));
        }
        (i + 4, MinState { in_comment: true, ..st })
    } else {
        proof {
            if st.quote is None && st.verbatim is None {
                assert(!comment_open_at(t@, i as int));
            }
        }
        let vb = st.verbatim;
        match vb {
            Some(v) => {
                if closing_match_x(t, i, v) {
                    let st2 = MinState {
                        in_tag: true,
                        quote: None,
                        in_comment: false,
                        verbatim: None,
                        last_ws: false,
                    };
                    out.push('<');
                    proof {
                        assert(out@ =~= out0 + seq!['<']);
                        assert((out0 + seq!['<']) + mz(t@, i + 1, st2) =~= out0 + (seq!['<'] + mz(
                            t@,
                            i + 1,
                            st2,
                        )));
                    }
                    (i + 1, st2)
                } else {
                    let st2 = MinState { last_ws: is_space(c), ..st };
                    out.push(c);
                    proof {
                        assert(out@ =~= out0 + seq![t@[i as int]]);
                        assert((out0 + seq![t@[i as int]]) + mz(t@, i + 1, st2) =~= out0 + (seq![
                            t@[i as int],
                        ] + mz(t@, i + 1, st2)));
                    }
                    (i + 1, st2)
                }
            },
            None => {
                let opening = if st.quote.is_none() {
                    opening_vkind_x(t, i)
                } else {
                    None
                };
                match opening {
                    Some(v) => {
                        let st2 = MinState {
                            in_tag: false,
                            quote: None,
                            in_comment: false,
                            verbatim: Some(v),
                            last_ws: false,
                        };
                        out.push(c);
                        proof {
                            assert(out@ =~= out0 + seq![t@[i as int]]);
                            assert((out0 + seq![t@[i as int]]) + mz(t@, i + 1, st2) =~= out0 + (
                            seq![t@[i as int]] + mz(t@, i + 1, st2)));
                        }
                        (i + 1, st2)
                    },
                    None => {
                        proof {
                            if st.quote is None {
                                assert(opening_vkind(t@, i as int) is None);
                            }
                        }
                        mstep_plain(t, i, st, out)
                    },
                }
            },
        }
    }
}

/// One step of the pass outside comments and verbatim mode, at a position
/// that opens no comment and no verbatim element: quotes, tag bounds,
/// whitespace collapse, and plain characters.
#[verifier::rlimit(60)]
fn mstep_plain(t: &Vec<char>, i: usize, st: MinState, out: &mut Vec<char>) -> (res: (
    usize,
    MinState,
))
    requires
        i < t@.len(),
        !st.in_comment,
        st.verbatim is None,
        st.quote is None ==> !comment_open_at(t@, i as int) && opening_vkind(t@, i as int) is None,
        st.quote is Some ==> !(st.in_tag && st.quote is None),
    ensures
        res.0 == i + 1,
        old(out)@ + mz(t@, i as int, st) == final(out)@ + mz(t@, res.0 as int, res.1),
{
    let n = t.len();
    let c = t[i];
    let ghost out0 = out@;
    let quote_open = st.in_tag && st.quote.is_none() && (c == '"' || c == '\'');
    if quote_open {
        let st2 = MinState { quote: Some(c), last_ws: false, ..st };
        out.push(c);
        proof {
            assert(out@ =~= out0 + seq![t@[i as int]]);
            assert((out0 + seq![t@[i as int]]) + mz(t@, i + 1, st2) =~= out0 + (seq![t@[i as int]]
                + mz(t@, i + 1, st2)));
        }
        return (i + 1, st2);
    }
    match st.quote {
        Some(q) => {
            let st2 = if c == q {
                MinState { quote: None, last_ws: false, ..st }
            } else {
                MinState { last_ws: is_space(c), ..st }
            };
            out.push(c);
            proof {
                assert(out@ =~= out0 + seq![t@[i as int]]);
                assert((out0 + seq![t@[i as int]]) + mz(t@, i + 1, st2) =~= out0 + (seq![
                    t@[i as int],
                ] + mz(t@, i + 1, st2)));
            }
            (i + 1, st2)
        },
        None => {
            if c == '<' || c == '>' {
                let st2 = MinState { in_tag: c == '<', last_ws: false, ..st };
                out.push(c);
                proof {
                    assert(out@ =~= out0 + seq![t@[i as int]]);
                    assert((out0 + seq![t@[i as int]]) + mz(t@, i + 1, st2) =~= out0 + (seq![
                        t@[i as int],
                    ] + mz(t@, i + 1, st2)));
                }
                (i + 1, st2)
            } else if is_space(c) {
                if st.last_ws {
                    (i + 1, st)
                } else {
                    let st2 = MinState { last_ws: true, ..st };
                    out.push(' ');
                    proof {
                        assert(out@ =~= out0 + seq![' ']);
                        assert((out0 + seq![' ']) + mz(t@, i + 1, st2) =~= out0 + (seq![' '] + mz(
                            t@,
                            i + 1,
                            st2,
                        )));
                    }
                    (i + 1, st2)
                }
            } else {
                let st2 = MinState { last_ws: false, ..st };
                out.push(c);
                proof {
                    assert(out@ =~= out0 + seq![t@[i as int]]);
                    assert((out0 + seq![t@[i as int]]) + mz(t@, i + 1, st2) =~= out0 + (seq![
                        t@[i as int],
                    ] + mz(t@, i + 1, st2)));
                }
                (i + 1, st2)
            }
        },
    }
}

/// Minifies a document: a no-op when disabled; otherwise the single
/// forward pass of the state machine, then a trim of the whole document.
/// The output is never longer than the input.
pub fn minify_text(html: &str, enabled: bool) -> (r: String)
    ensures
        r@ == spec_minify(html@, enabled),
        r@.len() <= html@.len(),
{
    proof {
        lemma_minify_len(html@, enabled);
    }
    if !enabled {
        return html.to_owned();
    }
    let t = crate::text::chars_of(html);
    let n = t.len();
    let mut out: Vec<char> = Vec::new();
    let mut st = MinState {
        in_tag: false,
        quote: None,
        in_comment: false,
        verbatim: None,
        last_ws: true,
    };
    let mut i: usize = 0;
    proof {
        assert(st == init_state());
    }
    while i < n
        invariant
            i <= n,
            n == t@.len(),
            t@ == html@,
            mz(t@, 0, init_state()) == out@ + mz(t@, i as int, st),
        decreases n - i,
    {
        let (i2, st2) = mstep(&t, i, st, &mut out);
        i = i2;
        st = st2;
    }
    proof {
        assert(mz(t@, n as int, st) =~= Seq::<char>::empty());
        assert(mz(t@, 0, init_state()) =~= out@);
    }
    let trimmed = trim_chars(&out);
    string_from_chars(&trimmed)
}

/// The law of verbatim elements: while the machine is inside a verbatim
/// element, every character before the element's matching closing tag
/// passes through unmodified, whatever it is — the emitted output is the
/// input's own character sequence, byte for byte, followed by what the
/// pass emits from the closing position on.
pub proof fn lemma_verbatim_preserved(s: Seq<char>, i: int, jc: int, st: MinState)
    requires
        0 <= i <= jc <= s.len(),
        !st.in_comment,
        st.verbatim is Some,
        forall|j: int| i <= j < jc ==> !closing_match(s, j, st.verbatim->0),
    ensures
        mz(s, i, st) == s.subrange(i, jc) + mz(
            s,
            jc,
            MinState {
                last_ws: if i < jc {
                    is_space_char(s[jc - 1])
                } else {
                    st.last_ws
                },
                ..st
            },
        ),
    decreases jc - i,
{
    if i == jc {
        assert(s.subrange(i, jc) =~= Seq::<char>::empty());
        assert(MinState { last_ws: st.last_ws, ..st } == st);
        assert(s.subrange(i, jc) + mz(s, jc, st) =~= mz(s, i, st));
    } else {
        let st2 = MinState { last_ws: is_space_char(s[i]), ..st };
        assert(mz(s, i, st) == seq![s[i]] + mz(s, i + 1, st2));
        lemma_verbatim_preserved(s, i + 1, jc, st2);
        let stf = MinState {
            last_ws: if i < jc {
                is_space_char(s[jc - 1])
            } else {
                st.last_ws
            },
            ..st
        };
        let stf2 = MinState {
            last_ws: if i + 1 < jc {
                is_space_char(s[jc - 1])
            } else {
                st2.last_ws
            },
            ..st2
        };
        assert(stf2 == stf);
        assert(seq![s[i]] + (s.subrange(i + 1, jc) + mz(s, jc, stf)) =~= s.subrange(i, jc) + mz(
            s,
            jc,
            stf,
        ));
    }
}

/// A document with no markup delimiter at all: the minifier then only
/// collapses whitespace.
pub open spec fn markup_free(s: Seq<char>) -> bool {
    forall|i: int| 0 <= i < s.len() ==> s[i] != '<'
}

/// Whitespace collapse alone, from position `i`, `w` telling whether the
/// last emitted character was whitespace.
pub open spec fn collapse(s: Seq<char>, i: int, w: bool) -> Seq<char>
    decreases s.len() - i,
{
    if i < 0 || i >= s.len() {
        Seq::empty()
    } else if is_space_char(s[i]) {
        if w {
            collapse(s, i + 1, w)
        } else {
            seq![' '] + collapse(s, i + 1, true)
        }
    } else {
        seq![s[i]] + collapse(s, i + 1, false)
    }
}

/// On a markup-free document the machine is exactly whitespace collapse.
proof fn lemma_mz_plain(s: Seq<char>, i: int, w: bool)
    requires
        markup_free(s),
    ensures
        mz(
            s,
            i,
            MinState { in_tag: false, quote: None, in_comment: false, verbatim: None, last_ws: w },
        ) == collapse(s, i, w),
    decreases s.len() - i,
{
    let st = MinState {
        in_tag: false,
        quote: None,
        in_comment: false,
        verbatim: None,
        last_ws: w,
    };
    if 0 <= i < s.len() {
        assert(s[i] != '<');
        assert(!comment_open_at(s, i));
        assert(opening_vkind(s, i) is None);
        if is_space_char(s[i]) {
            if w {
                lemma_mz_plain(s, i + 1, w);
            } else {
                lemma_mz_plain(s, i + 1, true);
            }
        } else {
            lemma_mz_plain(s, i + 1, false);
        }
    }
}

/// What whitespace collapse emits: only plain spaces stand for whitespace,
/// never two in a row, none first when `w` holds, and no new markup.
proof fn lemma_collapse_shape(s: Seq<char>, i: int, w: bool)
    requires
        markup_free(s),
    ensures
        forall|j: int|
            0 <= j < collapse(s, i, w).len() ==> (is_space_char(#[trigger] collapse(s, i, w)[j])
                ==> collapse(s, i, w)[j] == ' '),
        forall|j: int|
            0 <= j < collapse(s, i, w).len() - 1 ==> !(is_space_char(
                #[trigger] collapse(s, i, w)[j],
            ) && is_space_char(collapse(s, i, w)[j + 1])),
        w && collapse(s, i, w).len() > 0 ==> !is_space_char(collapse(s, i, w)[0]),
        forall|j: int| 0 <= j < collapse(s, i, w).len() ==> #[trigger] collapse(s, i, w)[j] != '<',
    decreases s.len() - i,
{
    let cur = collapse(s, i, w);
    if 0 <= i < s.len() {
        if is_space_char(s[i]) {
            if w {
                lemma_collapse_shape(s, i + 1, w);
                assert(cur == collapse(s, i + 1, w));
            } else {
                lemma_collapse_shape(s, i + 1, true);
                let rest = collapse(s, i + 1, true);
                assert(cur == seq![' '] + rest);
                assert(cur.len() == 1 + rest.len());
                assert(forall|j: int| 1 <= j < cur.len() ==> cur[j] == rest[j - 1]);
                assert(cur[0] == ' ');
                assert(rest.len() > 0 ==> !is_space_char(rest[0]));
                assert forall|j: int|
                    0 <= j < cur.len() - 1 implies !(is_space_char(#[trigger] cur[j])
                    && is_space_char(cur[j + 1])) by {
                    if j == 0 {
                        assert(cur[1] == rest[0]);
                    } else {
                        assert(cur[j] == rest[j - 1] && cur[j + 1] == rest[j]);
                    }
                }
            }
        } else {
            lemma_collapse_shape(s, i + 1, false);
            let rest = collapse(s, i + 1, false);
            assert(cur == seq![s[i]] + rest);
            assert(cur.len() == 1 + rest.len());
            assert(forall|j: int| 1 <= j < cur.len() ==> cur[j] == rest[j - 1]);
            assert(cur[0] == s[i]);
            assert(s[i] != '<');
            assert(!is_space_char(cur[0]));
            assert forall|j: int|
                0 <= j < cur.len() - 1 implies !(is_space_char(#[trigger] cur[j]) && is_space_char(
                cur[j + 1],
            )) by {
                if j == 0 {
                } else {
                    assert(cur[j] == rest[j - 1] && cur[j + 1] == rest[j]);
                }
            }
        }
    }
}

/// Whitespace collapse is the identity on its own output shape: every
/// whitespace is a single plain space and, when `w` holds, the text does
/// not start with one.
proof fn lemma_collapse_identity(y: Seq<char>, i: int, w: bool)
    requires
        0 <= i <= y.len(),
        forall|j: int| i <= j < y.len() ==> (is_space_char(#[trigger] y[j]) ==> y[j] == ' '),
        forall|j: int|
            i <= j < y.len() - 1 ==> !(is_space_char(#[trigger] y[j]) && is_space_char(y[j + 1])),
        w && i < y.len() ==> !is_space_char(y[i]),
    ensures
        collapse(y, i, w) == y.subrange(i, y.len() as int),
    decreases y.len() - i,
{
    if i < y.len() {
        if is_space_char(y[i]) {
            assert(y[i] == ' ');
            assert(!w);
            lemma_collapse_identity(y, i + 1, true);
            assert(seq![' '] + y.subrange(i + 1, y.len() as int) =~= y.subrange(
                i,
                y.len() as int,
            ));
        } else {
            lemma_collapse_identity(y, i + 1, false);
            assert(seq![y[i]] + y.subrange(i + 1, y.len() as int) =~= y.subrange(
                i,
                y.len() as int,
            ));
        }
    } else {
        assert(y.subrange(i, y.len() as int) =~= Seq::<char>::empty());
    }
}

/// Trimming is the identity on a text with no whitespace at either end.
proof fn lemma_trim_identity(z: Seq<char>)
    requires
        z.len() > 0 ==> !is_space_char(z[0]),
        z.len() > 0 ==> !is_space_char(z[z.len() - 1]),
    ensures
        spec_trim(z) == z,
{
    crate::text::lemma_leading_spaces_bound(z);
    if z.len() > 0 {
        assert(crate::text::leading_spaces(z) == 0);
    }
    assert(spec_trim_start(z) =~= z);
    crate::text::lemma_trailing_spaces_bound(z);
    if z.len() > 0 {
        assert(crate::text::trailing_spaces(z) == 0);
    }
    assert(spec_trim_end(z) =~= z);
}

/// The law of idempotence on markup-free documents: minifying a document
/// that holds no markup delimiter twice gives the same text as minifying
/// it once, whether or not minification is enabled.
pub proof fn lemma_minify_idempotent_plain(x: Seq<char>, enabled: bool)
    requires
        markup_free(x),
    ensures
        spec_minify(spec_minify(x, enabled), enabled) == spec_minify(x, enabled),
{
    if enabled {
        lemma_mz_plain(x, 0, true);
        let y = collapse(x, 0, true);
        lemma_collapse_shape(x, 0, true);
        let z = spec_minify_on(x);
        crate::text::lemma_leading_spaces_bound(y);
        if y.len() > 0 {
            assert(!is_space_char(y[0]));
            assert(crate::text::leading_spaces(y) == 0);
        }
        assert(spec_trim_start(y) =~= y);
        crate::text::lemma_trailing_spaces_bound(y);
        let t = crate::text::trailing_spaces(y);
        assert(z == spec_trim_end(y));
        assert(z =~= y.subrange(0, y.len() - t));
        // the trimmed document keeps the collapsed shape, with no
        // whitespace at either end
        assert(forall|j: int| 0 <= j < z.len() ==> z[j] == y[j]);
        assert(markup_free(z));
        assert(forall|j: int| 0 <= j < z.len() ==> (is_space_char(#[trigger] z[j]) ==> z[j] == ' '));
        assert(forall|j: int|
            0 <= j < z.len() - 1 ==> !(is_space_char(#[trigger] z[j]) && is_space_char(z[j + 1])));
        if z.len() > 0 {
            assert(!is_space_char(z[0]));
            assert(!is_space_char(z[z.len() - 1])) by {
                if is_space_char(y[z.len() - 1]) {
                    assert(t < y.len() ==> !is_space_char(y[y.len() - t - 1]));
                }
            }
        }
        lemma_mz_plain(z, 0, true);
        lemma_collapse_identity(z, 0, true);
        assert(z.subrange(0, z.len() as int) =~= z);
        lemma_trim_identity(z);
        assert(spec_minify_on(z) == z);
    }
}

/// One pass never emits more than it consumes.
pub proof fn lemma_mz_len(s: Seq<char>, i: int, st: MinState)
    requires
        0 <= i,
    ensures
        mz(s, i, st).len() <= s.len() - i || mz(s, i, st).len() == 0,
    decreases s.len() - i,
{
    if 0 <= i < s.len() {
        let c = s[i];
        if st.in_comment {
            if comment_close_at(s, i) {
                lemma_mz_len(s, i + 3, MinState { in_comment: false, ..st });
            } else {
                lemma_mz_len(s, i + 1, st);
            }
        } else if st.quote is None && st.verbatim is None && comment_open_at(s, i) {
            lemma_mz_len(s, i + 4, MinState { in_comment: true, ..st });
        } else if st.verbatim is Some {
            let v = st.verbatim->0;
            if closing_match(s, i, v) {
                lemma_mz_len(
                    s,
                    i + 1,
                    MinState {
                        in_tag: true,
                        quote: None,
                        in_comment: false,
                        verbatim: None,
                        last_ws: false,
                    },
                );
            } else {
                lemma_mz_len(s, i + 1, MinState { last_ws: is_space_char(c), ..st });
            }
        } else if st.quote is None && opening_vkind(s, i) is Some {
            let v = opening_vkind(s, i)->0;
            lemma_mz_len(
                s,
                i + 1,
                MinState {
                    in_tag: false,
                    quote: None,
                    in_comment: false,
                    verbatim: Some(v),
                    last_ws: false,
                },
            );
        } else if st.in_tag && st.quote is None && (c == '"' || c == '\'') {
            lemma_mz_len(s, i + 1, MinState { quote: Some(c), last_ws: false, ..st });
        } else if st.quote is Some {
            let q = st.quote->0;
            if c == q {
                lemma_mz_len(s, i + 1, MinState { quote: None, last_ws: false, ..st });
            } else {
                lemma_mz_len(s, i + 1, MinState { last_ws: is_space_char(c), ..st });
            }
        } else if c == '<' {
            lemma_mz_len(s, i + 1, MinState { in_tag: true, last_ws: false, ..st });
        } else if c == '>' {
            lemma_mz_len(s, i + 1, MinState { in_tag: false, last_ws: false, ..st });
        } else if is_space_char(c) {
            if st.last_ws {
                lemma_mz_len(s, i + 1, st);
            } else {
                lemma_mz_len(s, i + 1, MinState { last_ws: true, ..st });
            }
        } else {
            lemma_mz_len(s, i + 1, MinState { last_ws: false, ..st });
        }
    }
}

/// The minified document is never longer than the input.
pub proof fn lemma_minify_len(t: Seq<char>, enabled: bool)
    ensures
        spec_minify(t, enabled).len() <= t.len(),
{
    if enabled {
        lemma_mz_len(t, 0, init_state());
        crate::text::lemma_leading_spaces_bound(mz(t, 0, init_state()));
        crate::text::lemma_trailing_spaces_bound(spec_trim_start(mz(t, 0, init_state())));
    }
}

} // verus!
