//! Character-level text utilities shared by the parser, the minifier and
//! the artifact generators.

use vstd::prelude::*;
use vstd::string::StrSliceExecFns;

verus! {

/// The characters treated as whitespace throughout the pipeline: the ASCII
/// blank set.
pub open spec fn is_space_char(c: char) -> bool {
    c == ' ' || c == '\t' || c == '\n' || c == '\r' || c == '\u{b}' || c == '\u{c}'
}

pub fn is_space(c: char) -> (r: bool)
    ensures
        r == is_space_char(c),
{
    c == ' ' || c == '\t' || c == '\n' || c == '\r' || c == '\u{b}' || c == '\u{c}'
}

/// The characters of a string slice, as a vector.
pub fn chars_of(s: &str) -> (r: Vec<char>)
    ensures
        r@ == s@,
{
    let n = s.unicode_len();
    let mut v: Vec<char> = Vec::new();
    let mut i: usize = 0;
    while i < n
        invariant
            i <= n,
            n == s@.len(),
            v@ == s@.subrange(0, i as int),
        decreases n - i,
    {
        v.push(s.get_char(i));
        assert(v@ =~= s@.subrange(0, i + 1 as int));
        i += 1;
    }
    proof {
        assert(v@ =~= s@);
    }
    v
}

/// Relies on `String: FromIterator<char>`: the collected string holds
/// exactly the iterated characters, in order.
#[verifier::external_body]
pub fn string_from_chars(v: &Vec<char>) -> (r: String)
    ensures
        r@ == v@,
{
    v.iter().collect()
}

/// Appends the characters of `s` to `v`.
pub fn push_str_chars(v: &mut Vec<char>, s: &str)
    ensures
        final(v)@ == old(v)@ + s@,
{
    let n = s.unicode_len();
    let mut i: usize = 0;
    while i < n
        invariant
            i <= n,
            n == s@.len(),
            v@ == old(v)@ + s@.subrange(0, i as int),
        decreases n - i,
    {
        v.push(s.get_char(i));
        assert(v@ =~= old(v)@ + s@.subrange(0, i + 1 as int));
        i += 1;
    }
    proof {
        assert(v@ =~= old(v)@ + s@);
    }
}

/// Appends the characters of `w` to `v`.
pub fn push_chars(v: &mut Vec<char>, w: &Vec<char>)
    ensures
        final(v)@ == old(v)@ + w@,
{
    let n = w.len();
    let mut i: usize = 0;
    while i < n
        invariant
            i <= n,
            n == w@.len(),
            v@ == old(v)@ + w@.subrange(0, i as int),
        decreases n - i,
    {
        v.push(w[i]);
        assert(v@ =~= old(v)@ + w@.subrange(0, i + 1 as int));
        i += 1;
    }
    proof {
        assert(v@ =~= old(v)@ + w@);
    }
}

/// Whether two string slices hold the same characters.
pub fn str_eq(a: &str, b: &str) -> (r: bool)
    ensures
        r == (a@ == b@),
{
    let na = a.unicode_len();
    let nb = b.unicode_len();
    if na != nb {
        proof {
            assert(a@ != b@);
        }
        return false;
    }
    let mut i: usize = 0;
    while i < na
        invariant
            i <= na,
            na == a@.len(),
            na == b@.len(),
            forall|j: int| 0 <= j < i ==> a@[j] == b@[j],
        decreases na - i,
    {
        if a.get_char(i) != b.get_char(i) {
            proof {
                assert(a@ != b@);
            }
            return false;
        }
        i += 1;
    }
    proof {
        assert(a@ =~= b@);
    }
    true
}

/// The pattern `p` occurs in `s` at position `i`.
pub open spec fn occurs_at(s: Seq<char>, p: Seq<char>, i: int) -> bool {
    0 <= i && i + p.len() <= s.len() && s.subrange(i, i + p.len()) == p
}

/// The pattern `p` occurs somewhere in `s` at or after position `from`.
pub open spec fn occurs_from(s: Seq<char>, p: Seq<char>, from: int) -> bool {
    exists|i: int| from <= i && occurs_at(s, p, i)
}

/// The first position at or after `from` where the pattern occurs: `None`
/// if there is none.
pub open spec fn find_spec(s: Seq<char>, p: Seq<char>, from: int) -> Option<int>
    decreases s.len() + 1 - from,
{
    if from < 0 || from + p.len() > s.len() {
        None
    } else if occurs_at(s, p, from) {
        Some(from)
    } else {
        find_spec(s, p, from + 1)
    }
}

/// The first position at or after `from` where the pattern occurs, if any.
pub fn find_from(s: &Vec<char>, p: &Vec<char>, from: usize) -> (r: Option<usize>)
    requires
        p@.len() >= 1,
    ensures
        match r {
            Some(i) => from <= i && occurs_at(s@, p@, i as int) && find_spec(
                s@,
                p@,
                from as int,
            ) == Some(i as int) && forall|j: int| from <= j < i ==> !occurs_at(s@, p@, j),
            None => find_spec(s@, p@, from as int) is None && forall|j: int|
                from <= j ==> !occurs_at(s@, p@, j),
        },
{
    let n = s.len();
    let m = p.len();
    let mut i: usize = from;
    while i < n
        invariant
            from <= i,
            n == s@.len(),
            m == p@.len(),
            m >= 1,
            find_spec(s@, p@, from as int) == find_spec(s@, p@, i as int),
            forall|j: int| from <= j < i ==> !occurs_at(s@, p@, j),
        decreases n - i,
    {
        if m <= n - i {
            let mut k: usize = 0;
            let mut ok = true;
            while k < m
                invariant
                    k <= m,
                    i + m <= n,
                    n == s@.len(),
                    m == p@.len(),
                    ok <==> (forall|t: int| 0 <= t < k ==> s@[i + t] == p@[t]),
                decreases m - k,
            {
                if s[i + k] != p[k] {
                    ok = false;
                    proof {
                        assert(s@[i + k as int] != p@[k as int]);
                    }
                    k = m;
                } else {
                    k += 1;
                }
            }
            if ok {
                proof {
                    assert(s@.subrange(i as int, i + m) =~= p@);
                    assert(find_spec(s@, p@, i as int) == Some(i as int));
                }
                return Some(i);
            }
            proof {
                assert(!occurs_at(s@, p@, i as int)) by {
                    if occurs_at(s@, p@, i as int) {
                        assert(forall|t: int|
                            0 <= t < m ==> #[trigger] s@.subrange(i as int, i + m)[t] == s@[i
                                + t]);
                    }
                }
            }
            proof {
                assert(find_spec(s@, p@, i as int) == find_spec(s@, p@, i + 1));
            }
        } else {
            proof {
                assert(!occurs_at(s@, p@, i as int));
                assert(find_spec(s@, p@, i as int) is None);
                assert(find_spec(s@, p@, i + 1) is None);
            }
        }
        i += 1;
    }
    proof {
        assert(forall|j: int| from <= j ==> !occurs_at(s@, p@, j)) by {
            assert(forall|j: int| j + p@.len() > s@.len() ==> !occurs_at(s@, p@, j));
        }
        assert(find_spec(s@, p@, i as int) is None);
    }
    None
}

/// A copy of the characters of `s` between `lo` and `hi`.
pub fn sub_chars(s: &Vec<char>, lo: usize, hi: usize) -> (r: Vec<char>)
    requires
        lo <= hi <= s@.len(),
    ensures
        r@ == s@.subrange(lo as int, hi as int),
{
    let mut r: Vec<char> = Vec::new();
    let mut i: usize = lo;
    while i < hi
        invariant
            lo <= i <= hi <= s@.len(),
            r@ == s@.subrange(lo as int, i as int),
        decreases hi - i,
    {
        r.push(s[i]);
        assert(r@ =~= s@.subrange(lo as int, i + 1 as int));
        i += 1;
    }
    r
}

/// Whether the pattern occurs anywhere in `s`.
pub fn contains_sub(s: &Vec<char>, p: &Vec<char>) -> (r: bool)
    requires
        p@.len() >= 1,
    ensures
        r == occurs_from(s@, p@, 0),
{
    match find_from(s, p, 0) {
        Some(i) => {
            proof {
                assert(occurs_from(s@, p@, 0));
            }
            true
        },
        None => {
            proof {
                assert(!occurs_from(s@, p@, 0));
            }
            false
        },
    }
}

/// The number of leading whitespace characters of `s`.
pub open spec fn leading_spaces(s: Seq<char>) -> int
    decreases s.len(),
{
    if s.len() > 0 && is_space_char(s[0]) {
        1 + leading_spaces(s.drop_first())
    } else {
        0
    }
}

/// The number of trailing whitespace characters of `s`.
pub open spec fn trailing_spaces(s: Seq<char>) -> int
    decreases s.len(),
{
    if s.len() > 0 && is_space_char(s.last()) {
        1 + trailing_spaces(s.drop_last())
    } else {
        0
    }
}

pub proof fn lemma_leading_spaces_bound(s: Seq<char>)
    ensures
        0 <= leading_spaces(s) <= s.len(),
        forall|j: int| 0 <= j < leading_spaces(s) ==> is_space_char(s[j]),
        leading_spaces(s) < s.len() ==> !is_space_char(s[leading_spaces(s)]),
    decreases s.len(),
{
    if s.len() > 0 && is_space_char(s[0]) {
        lemma_leading_spaces_bound(s.drop_first());
        assert forall|j: int| 0 <= j < leading_spaces(s) implies is_space_char(s[j]) by {
            if j > 0 {
                assert(s.drop_first()[j - 1] == s[j]);
            }
        }
    }
}

pub proof fn lemma_trailing_spaces_bound(s: Seq<char>)
    ensures
        0 <= trailing_spaces(s) <= s.len(),
        forall|j: int| s.len() - trailing_spaces(s) <= j < s.len() ==> is_space_char(s[j]),
        trailing_spaces(s) < s.len() ==> !is_space_char(s[s.len() - trailing_spaces(s) - 1]),
    decreases s.len(),
{
    if s.len() > 0 && is_space_char(s.last()) {
        lemma_trailing_spaces_bound(s.drop_last());
        assert forall|j: int| s.len() - trailing_spaces(s) <= j < s.len() implies is_space_char(
            s[j],
        ) by {
            if j < s.len() - 1 {
                assert(s.drop_last()[j] == s[j]);
            }
        }
    }
}

/// `s` with leading whitespace removed.
pub open spec fn spec_trim_start(s: Seq<char>) -> Seq<char> {
    s.subrange(leading_spaces(s), s.len() as int)
}

/// `s` with trailing whitespace removed.
pub open spec fn spec_trim_end(s: Seq<char>) -> Seq<char> {
    s.subrange(0, s.len() - trailing_spaces(s))
}

/// `s` with whitespace removed on both ends.
pub open spec fn spec_trim(s: Seq<char>) -> Seq<char> {
    spec_trim_end(spec_trim_start(s))
}

proof fn lemma_leading_spaces_prefix(s: Seq<char>, lo: int)
    requires
        0 <= lo <= s.len(),
        forall|j: int| 0 <= j < lo ==> is_space_char(s[j]),
        lo < s.len() ==> !is_space_char(s[lo]),
    ensures
        leading_spaces(s) == lo,
    decreases lo,
{
    if lo == 0 {
    } else {
        assert(is_space_char(s[0]));
        lemma_leading_spaces_prefix(s.drop_first(), lo - 1);
    }
}

proof fn lemma_trailing_spaces_suffix(s: Seq<char>, k: int)
    requires
        0 <= k <= s.len(),
        forall|j: int| s.len() - k <= j < s.len() ==> is_space_char(s[j]),
        k < s.len() ==> !is_space_char(s[s.len() - k - 1]),
    ensures
        trailing_spaces(s) == k,
    decreases k,
{
    if k == 0 {
    } else {
        assert(is_space_char(s.last()));
        lemma_trailing_spaces_suffix(s.drop_last(), k - 1);
    }
}

/// The subrange of `s` left after trimming whitespace from the start.
pub fn trim_start_chars(s: &Vec<char>) -> (r: Vec<char>)
    ensures
        r@ == spec_trim_start(s@),
{
    let n = s.len();
    let mut lo: usize = 0;
    while lo < n && is_space(s[lo])
        invariant
            lo <= n,
            n == s@.len(),
            forall|j: int| 0 <= j < lo ==> is_space_char(s@[j]),
        decreases n - lo,
    {
        lo += 1;
    }
    proof {
        lemma_leading_spaces_prefix(s@, lo as int);
    }
    let mut r: Vec<char> = Vec::new();
    let mut i: usize = lo;
    while i < n
        invariant
            lo <= i <= n,
            n == s@.len(),
            r@ == s@.subrange(lo as int, i as int),
        decreases n - i,
    {
        r.push(s[i]);
        assert(r@ =~= s@.subrange(lo as int, i + 1 as int));
        i += 1;
    }
    r
}

/// The subrange of `s` left after trimming whitespace from both ends.
pub fn trim_chars(s: &Vec<char>) -> (r: Vec<char>)
    ensures
        r@ == spec_trim(s@),
{
    let t = trim_start_chars(s);
    let n = t.len();
    let mut hi: usize = n;
    while hi > 0 && is_space(t[hi - 1])
        invariant
            hi <= n,
            n == t@.len(),
            forall|j: int| hi <= j < n ==> is_space_char(t@[j]),
        decreases hi,
    {
        hi -= 1;
    }
    proof {
        lemma_trailing_spaces_suffix(t@, n - hi as int);
    }
    let mut r: Vec<char> = Vec::new();
    let mut i: usize = 0;
    while i < hi
        invariant
            i <= hi <= n,
            n == t@.len(),
            r@ == t@.subrange(0, i as int),
        decreases hi - i,
    {
        r.push(t[i]);
        assert(r@ =~= t@.subrange(0, i + 1 as int));
        i += 1;
    }
    proof {
        assert(r@ =~= spec_trim_end(t@));
    }
    r
}

} // verus!
