//! Verified JSON text construction: the template data object and the build
//! metadata document are rendered as JSON by these functions.

use vstd::prelude::*;
use crate::date::{digit_run_end, is_digit, spec_digit_char};
use crate::meta::{MetaNode, MetaValue};
use crate::text::push_str_chars;

verus! {

broadcast use vstd::std_specs::vec::group_vec_axioms, vstd::seq::group_seq_axioms;

/// The hexadecimal digit character of a value below sixteen.
pub open spec fn spec_hex_char(d: int) -> char {
    if d < 10 {
        spec_digit_char(d)
    } else if d == 10 {
        'a'
    } else if d == 11 {
        'b'
    } else if d == 12 {
        'c'
    } else if d == 13 {
        'd'
    } else if d == 14 {
        'e'
    } else {
        'f'
    }
}

/// The JSON escape of one character: quotes and backslashes are escaped,
/// the common control characters by name, the rest of the control range
/// numerically, and every other character stands for itself.
pub open spec fn spec_escape_char(c: char) -> Seq<char> {
    if c == '"' {
        seq!['\\', '"']
    } else if c == '\\' {
        seq!['\\', '\\']
    } else if c == '\n' {
        seq!['\\', 'n']
    } else if c == '\r' {
        seq!['\\', 'r']
    } else if c == '\t' {
        seq!['\\', 't']
    } else if (c as u32) < 32 {
        seq!['\\', 'u', '0', '0', spec_hex_char((c as u32) as int / 16), spec_hex_char((c as u32) as int % 16)]
    } else {
        seq![c]
    }
}

/// The JSON escape of a text.
pub open spec fn spec_escape(s: Seq<char>) -> Seq<char>
    decreases s.len(),
{
    if s.len() == 0 {
        Seq::empty()
    } else {
        spec_escape_char(s[0]) + spec_escape(s.drop_first())
    }
}

proof fn lemma_escape_snoc(s: Seq<char>, c: char)
    ensures
        spec_escape(s.push(c)) == spec_escape(s) + spec_escape_char(c),
    decreases s.len(),
{
    if s.len() == 0 {
        assert(s.push(c)[0] == c);
        assert(s.push(c).drop_first() =~= Seq::<char>::empty());
        assert(spec_escape(Seq::<char>::empty()) =~= Seq::<char>::empty());
        assert(spec_escape(s.push(c)) =~= spec_escape(s) + spec_escape_char(c));
    } else {
        assert(s.push(c).drop_first() =~= s.drop_first().push(c));
        lemma_escape_snoc(s.drop_first(), c);
        assert(spec_escape(s.push(c)) =~= spec_escape(s) + spec_escape_char(c));
    }
}

/// A JSON string literal: the escaped text between double quotes.
pub open spec fn spec_json_string(s: Seq<char>) -> Seq<char> {
    seq!['"'] + spec_escape(s) + seq!['"']
}

fn hex_char(d: u32) -> (r: char)
    requires
        d < 16,
    ensures
        r == spec_hex_char(d as int),
{
    if d < 10 {
        crate::date::exec_digit_char(d)
    } else if d == 10 {
        'a'
    } else if d == 11 {
        'b'
    } else if d == 12 {
        'c'
    } else if d == 13 {
        'd'
    } else if d == 14 {
        'e'
    } else {
        'f'
    }
}

fn push_escape_char(out: &mut Vec<char>, c: char)
    ensures
        final(out)@ == old(out)@ + spec_escape_char(c),
{
    let u = c as u32;
    if c == '"' {
        out.push('\\');
        out.push('"');
    } else if c == '\\' {
        out.push('\\');
        out.push('\\');
    } else if c == '\n' {
        out.push('\\');
        out.push('n');
    } else if c == '\r' {
        out.push('\\');
        out.push('r');
    } else if c == '\t' {
        out.push('\\');
        out.push('t');
    } else if u < 32 {
        out.push('\\');
        out.push('u');
        out.push('0');
        out.push('0');
        out.push(hex_char(u / 16));
        out.push(hex_char(u % 16));
    } else {
        out.push(c);
    }
    proof {
        assert(out@ =~= old(out)@ + spec_escape_char(c));
    }
}

/// Appends the JSON string literal of `s`.
pub fn push_json_string(out: &mut Vec<char>, s: &str)
    ensures
        final(out)@ == old(out)@ + spec_json_string(s@),
{
    let t = crate::text::chars_of(s);
    let n = t.len();
    out.push('"');
    let mut i: usize = 0;
    proof {
        assert(s@.subrange(0, 0) =~= Seq::<char>::empty());
        assert(out@ =~= old(out)@ + seq!['"'] + spec_escape(s@.subrange(0, 0)));
    }
    while i < n
        invariant
            i <= n,
            n == t@.len(),
            t@ == s@,
            out@ == old(out)@ + seq!['"'] + spec_escape(s@.subrange(0, i as int)),
        decreases n - i,
    {
        push_escape_char(out, t[i]);
        proof {
            assert(s@.subrange(0, i as int).push(s@[i as int]) =~= s@.subrange(0, i + 1));
            lemma_escape_snoc(s@.subrange(0, i as int), s@[i as int]);
            assert(out@ =~= old(out)@ + seq!['"'] + spec_escape(s@.subrange(0, i + 1)));
        }
        i += 1;
    }
    out.push('"');
    proof {
        assert(s@.subrange(0, n as int) =~= s@);
        assert(out@ =~= old(out)@ + spec_json_string(s@));
    }
}

/// The text has the shape of a JSON number: an optional minus sign, an
/// integer part without a stray leading zero, an optional fraction, an
/// optional exponent.
pub open spec fn json_num_shape(s: Seq<char>) -> bool {
    let i0: int = if s.len() > 0 && s[0] == '-' {
        1
    } else {
        0
    };
    let d = digit_run_end(s, i0);
    d > i0 && (s[i0] == '0' ==> d == i0 + 1) && {
        let p: int = if d < s.len() && s[d] == '.' {
            digit_run_end(s, d + 1)
        } else {
            d
        };
        (p > d + 1 || p == d) && {
            if p == s.len() {
                true
            } else if s[p] == 'e' || s[p] == 'E' {
                let q: int = if p + 1 < s.len() && (s[p + 1] == '+' || s[p + 1] == '-') {
                    p + 2
                } else {
                    p + 1
                };
                digit_run_end(s, q) == s.len() && s.len() > q
            } else {
                false
            }
        }
    }
}

/// Whether the text has the shape of a JSON number.
pub fn json_num_ok(s: &Vec<char>) -> (r: bool)
    ensures
        r == json_num_shape(s@),
{
    let n = s.len();
    let i0: usize = if n > 0 && s[0] == '-' {
        1
    } else {
        0
    };
    let d = crate::date::digit_run_end_vec(s, i0);
    if !(d > i0) {
        return false;
    }
    if s[i0] == '0' && d != i0 + 1 {
        return false;
    }
    let mut p: usize = d;
    if d < n && s[d] == '.' {
        let pp = crate::date::digit_run_end_vec(s, d + 1);
        if pp == d + 1 {
            return false;
        }
        p = pp;
    }
    if p == n {
        return true;
    }
    if s[p] == 'e' || s[p] == 'E' {
        let q: usize = if p + 1 < n && (s[p + 1] == '+' || s[p + 1] == '-') {
            p + 2
        } else {
            p + 1
        };
        let g = crate::date::digit_run_end_vec(s, if q <= n {
            q
        } else {
            n
        });
        if q > n {
            proof {
                assert(digit_run_end(s@, q as int) == q as int);
            }
            return false;
        }
        g == n && n > q
    } else {
        false
    }
}

/// The pieces joined with commas.
pub open spec fn comma_join(xs: Seq<Seq<char>>) -> Seq<char>
    decreases xs.len(),
{
    if xs.len() == 0 {
        Seq::empty()
    } else if xs.len() == 1 {
        xs[0]
    } else {
        xs[0] + ","@ + comma_join(xs.drop_first())
    }
}

pub proof fn lemma_comma_join_snoc(xs: Seq<Seq<char>>, x: Seq<char>)
    ensures
        comma_join(xs.push(x)) == if xs.len() == 0 {
            x
        } else {
            comma_join(xs) + ","@ + x
        },
    decreases xs.len(),
{
    if xs.len() == 0 {
        assert(xs.push(x)[0] == x);
        assert(comma_join(xs.push(x)) == x);
    } else if xs.len() == 1 {
        assert(xs.push(x).drop_first() =~= seq![x]);
        assert(comma_join(seq![x]) == x);
        assert(xs.push(x)[0] == xs[0]);
        assert(comma_join(xs.push(x)) =~= xs[0] + ","@ + x);
        assert(comma_join(xs) + ","@ + x =~= xs[0] + ","@ + x);
    } else {
        assert(xs.push(x).drop_first() =~= xs.drop_first().push(x));
        lemma_comma_join_snoc(xs.drop_first(), x);
        assert(comma_join(xs.push(x)) =~= comma_join(xs) + ","@ + x);
    }
}

/// The JSON rendering of a metadata value: null, true or false, a number
/// (as itself when it has JSON number shape, as a string otherwise), a
/// string, an array, or an object.
pub open spec fn spec_json_meta(n: MetaNode) -> Seq<char>
    decreases n, 0int,
{
    match n {
        MetaNode::Null => "null"@,
        MetaNode::Bool(b) => if b {
            "true"@
        } else {
            "false"@
        },
        MetaNode::Num(s) => if json_num_shape(s) {
            s
        } else {
            spec_json_string(s)
        },
        MetaNode::Str(s) => spec_json_string(s),
        MetaNode::List(items) => seq!['['] + comma_join(json_pieces(items)) + seq![']'],
        MetaNode::Dict(pairs) => seq!['{'] + comma_join(json_pair_pieces(pairs)) + seq!['}'],
    }
}

/// The JSON renderings of the values of a sequence.
pub open spec fn json_pieces(items: Seq<MetaNode>) -> Seq<Seq<char>>
    decreases items, 1int,
{
    Seq::new(
        items.len(),
        |i: int|
            if 0 <= i < items.len() {
                spec_json_meta(items[i])
            } else {
                Seq::empty()
            },
    )
}

/// The JSON renderings of the members of an object: each key as a JSON
/// string, a colon, the value's rendering.
pub open spec fn json_pair_pieces(pairs: Seq<(Seq<char>, MetaNode)>) -> Seq<Seq<char>>
    decreases pairs, 1int,
{
    Seq::new(
        pairs.len(),
        |i: int|
            if 0 <= i < pairs.len() {
                spec_json_string(pairs[i].0) + ":"@ + spec_json_meta(pairs[i].1)
            } else {
                Seq::empty()
            },
    )
}

/// Appends the JSON rendering of a metadata value.
pub fn push_json_meta(out: &mut Vec<char>, v: &MetaValue)
    ensures
        final(out)@ == old(out)@ + spec_json_meta(v.model()),
    decreases *v,
{
    match v {
        MetaValue::Null => {
            push_str_chars(out, "null");
        },
        MetaValue::Bool(b) => {
            if *b {
                push_str_chars(out, "true");
            } else {
                push_str_chars(out, "false");
            }
        },
        MetaValue::Num(s) => {
            let t = crate::text::chars_of(s.as_str());
            if json_num_ok(&t) {
                crate::text::push_chars(out, &t);
            } else {
                push_json_string(out, s.as_str());
            }
        },
        MetaValue::Str(s) => {
            push_json_string(out, s.as_str());
        },
        MetaValue::List(items) => {
            let ghost ms = crate::meta::models_of(items@);
            let ghost pieces = json_pieces(ms);
            out.push('[');
            let n = items.len();
            let mut i: usize = 0;
            proof {
                assert(pieces.subrange(0, 0) =~= Seq::<Seq<char>>::empty());
                assert(out@ =~= old(out)@ + seq!['['] + comma_join(pieces.subrange(0, 0)));
            }
            while i < n
                invariant
                    i <= n,
                    n == items@.len(),
                    ms == crate::meta::models_of(items@),
                    pieces == json_pieces(ms),
                    *v == MetaValue::List(*items),
                    out@ == old(out)@ + seq!['['] + comma_join(pieces.subrange(0, i as int)),
                decreases n - i,
            {
                if i > 0 {
                    push_str_chars(out, ",");
                }
                proof {
                    assert(decreases_to!(*v => v->List_0));
                    assert(decreases_to!(v->List_0 => v->List_0@));
                    assert(decreases_to!(v->List_0@ => v->List_0@[i as int]));
                }
                push_json_meta(out, &items[i]);
                proof {
                    assert(pieces[i as int] == spec_json_meta(items@[i as int].model()));
                    assert(pieces.subrange(0, i as int).push(pieces[i as int]) =~= pieces.subrange(
                        0,
                        i + 1,
                    ));
                    lemma_comma_join_snoc(pieces.subrange(0, i as int), pieces[i as int]);
                    assert(out@ =~= old(out)@ + seq!['['] + comma_join(pieces.subrange(0, i + 1)));
                }
                i += 1;
            }
            out.push(']');
            proof {
                assert(pieces.subrange(0, n as int) =~= pieces);
                crate::meta::lemma_list_model(*items);
                assert(spec_json_meta(v.model()) == seq!['['] + comma_join(pieces) + seq![']']);
                assert(out@ =~= old(out)@ + spec_json_meta(v.model()));
            }
        },
        MetaValue::Dict(pairs) => {
            let ghost ms = crate::meta::pair_models_of(pairs@);
            let ghost pieces = json_pair_pieces(ms);
            out.push('{');
            let n = pairs.len();
            let mut i: usize = 0;
            proof {
                assert(pieces.subrange(0, 0) =~= Seq::<Seq<char>>::empty());
                assert(out@ =~= old(out)@ + seq!['{'] + comma_join(pieces.subrange(0, 0)));
            }
            while i < n
                invariant
                    i <= n,
                    n == pairs@.len(),
                    ms == crate::meta::pair_models_of(pairs@),
                    pieces == json_pair_pieces(ms),
                    *v == MetaValue::Dict(*pairs),
                    out@ == old(out)@ + seq!['{'] + comma_join(pieces.subrange(0, i as int)),
                decreases n - i,
            {
                if i > 0 {
                    push_str_chars(out, ",");
                }
                let ghost mid0 = out@;
                let (k, val) = &pairs[i];
                push_json_string(out, k.as_str());
                push_str_chars(out, ":");
                proof {
                    assert(decreases_to!(*v => v->Dict_0));
                    assert(decreases_to!(v->Dict_0 => v->Dict_0@));
                    assert(decreases_to!(v->Dict_0@ => v->Dict_0@[i as int]));
                    assert(decreases_to!(v->Dict_0@[i as int] => v->Dict_0@[i as int].1));
                }
                push_json_meta(out, val);
                proof {
                    assert(pieces[i as int] == spec_json_string(pairs@[i as int].0@) + ":"@
                        + spec_json_meta(pairs@[i as int].1.model()));
                    assert(out@ =~= mid0 + pieces[i as int]);
                    assert(pieces.subrange(0, i as int).push(pieces[i as int]) =~= pieces.subrange(
                        0,
                        i + 1,
                    ));
                    lemma_comma_join_snoc(pieces.subrange(0, i as int), pieces[i as int]);
                    assert(out@ =~= old(out)@ + seq!['{'] + comma_join(pieces.subrange(0, i + 1)));
                }
                i += 1;
            }
            out.push('}');
            proof {
                assert(pieces.subrange(0, n as int) =~= pieces);
                crate::meta::lemma_dict_model(*pairs);
                assert(spec_json_meta(v.model()) == seq!['{'] + comma_join(pieces) + seq!['}']);
                assert(out@ =~= old(out)@ + spec_json_meta(v.model()));
            }
        },
    }
}

} // verus!
