//! The fixed template helper functions. Their registration plumbing lives
//! with the caller that owns the template engine; the behavior of each
//! helper is defined and verified here.

use vstd::prelude::*;
use vstd::string::StringExecFns;
use crate::date::{
    dec_i, iso_date_of, parse_iso_date, parse_rfc3339_date, rfc3339_date_of, spec_display_date,
    format_display_date,
};
use crate::text::string_from_chars;

verus! {

/// A helper operand as extracted from the template data: a string, an
/// integer, or neither.
#[derive(Debug)]
pub enum HelperParam {
    Str(String),
    Int(i64),
    Missing,
}

/// The string an operand coerces to: a string itself, an integer's decimal
/// rendering, or the empty string.
pub open spec fn spec_coerce(p: HelperParam) -> Seq<char> {
    match p {
        HelperParam::Str(s) => s@,
        HelperParam::Int(n) => dec_i(n as int),
        HelperParam::Missing => Seq::empty(),
    }
}

/// Coerces a helper operand to a string.
pub fn coerce_param(p: &HelperParam) -> (r: String)
    ensures
        r@ == spec_coerce(*p),
{
    match p {
        HelperParam::Str(s) => s.clone(),
        HelperParam::Int(n) => crate::date::i64_to_string(*n),
        HelperParam::Missing => {
            let r = String::new();
            proof {
                assert(r@ =~= Seq::<char>::empty());
            }
            r
        },
    }
}

/// The equality helper: both operands coerced to strings and compared;
/// emits `true` or `false`.
pub fn helper_eq(a: &HelperParam, b: &HelperParam) -> (r: String)
    ensures
        spec_coerce(*a) == spec_coerce(*b) ==> r@ == "true"@,
        spec_coerce(*a) != spec_coerce(*b) ==> r@ == "false"@,
{
    let sa = coerce_param(a);
    let sb = coerce_param(b);
    if crate::text::str_eq(sa.as_str(), sb.as_str()) {
        String::from_str("true")
    } else {
        String::from_str("false")
    }
}

/// The inequality helper: the negation of the equality helper.
pub fn helper_neq(a: &HelperParam, b: &HelperParam) -> (r: String)
    ensures
        spec_coerce(*a) != spec_coerce(*b) ==> r@ == "true"@,
        spec_coerce(*a) == spec_coerce(*b) ==> r@ == "false"@,
{
    let sa = coerce_param(a);
    let sb = coerce_param(b);
    if crate::text::str_eq(sa.as_str(), sb.as_str()) {
        String::from_str("false")
    } else {
        String::from_str("true")
    }
}

/// What `str::to_lowercase` returns: the result depends on the characters
/// alone.
pub uninterp spec fn lower_of(s: Seq<char>) -> Seq<char>;

/// Relies on `str::to_lowercase`: the lowercase mapping of the text, a
/// function of its characters alone; an empty text stays empty.
#[verifier::external_body]
pub(crate) fn to_lowercase(s: &str) -> (r: String)
    ensures
        r@ == lower_of(s@),
        s@.len() == 0 ==> r@.len() == 0,
{
    s.to_lowercase()
}

/// The lowercase helper: the string operand lowercased; a missing operand
/// emits nothing.
pub fn helper_lowercase(p: &Option<String>) -> (r: String)
    ensures
        match p {
            Some(s) => r@ == lower_of(s@),
            None => r@.len() == 0,
        },
{
    match p {
        Some(s) => to_lowercase(s.as_str()),
        None => String::new(),
    }
}

/// The safe helper: the string operand passed through unescaped; a missing
/// operand emits nothing.
pub fn helper_safe(p: &Option<String>) -> (r: String)
    ensures
        match p {
            Some(s) => r@ == s@,
            None => r@.len() == 0,
        },
{
    match p {
        Some(s) => s.clone(),
        None => String::new(),
    }
}

/// What the date helper emits for a text: the display rendering of an ISO
/// calendar date, else of an RFC-3339 timestamp's date fields, else the
/// text unchanged.
pub open spec fn spec_helper_date(s: Seq<char>) -> Seq<char> {
    match iso_date_of(s) {
        Some(ymd) => spec_display_date(ymd.0, ymd.1, ymd.2),
        None => match rfc3339_date_of(s) {
            Some(ymd) => spec_display_date(ymd.0, ymd.1, ymd.2),
            None => s,
        },
    }
}

/// The date format helper.
pub fn helper_date(s: &str) -> (r: String)
    ensures
        r@ == spec_helper_date(s@),
{
    match parse_iso_date(s) {
        Some((y, m, d)) => format_display_date(y, m, d),
        None => match parse_rfc3339_date(s) {
            Some((y, m, d)) => {
                proof {
                    crate::date::lemma_rfc3339_date_valid(s@);
                }
                format_display_date(y, m, d)
            },
            None => s.to_owned(),
        },
    }
}

} // verus!
