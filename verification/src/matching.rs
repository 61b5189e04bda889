use vstd::prelude::*;

verus! {

// Keyword matching through the `regex` crate.
//
// Whether a text matches a configured pattern is decided by `regex`; the
// outcome is a function of the pattern and the text alone, so it is given
// a name here and the contracts of the responders speak of that name.
// Patterns are carried as plain strings and compiled at the call; a
// public validity check lets callers refuse a bad pattern up front, and
// every trusted item that compiles unchecked requires validity.

/// Whether `regex::Regex::new` accepts `pattern`.
pub uninterp spec fn regex_valid(pattern: Seq<char>) -> bool;

/// Whether `text` matches `pattern`, as `regex::Regex::is_match` decides
/// it; meaningful only for a valid pattern.
pub uninterp spec fn regex_match(pattern: Seq<char>, text: Seq<char>) -> bool;

/// `text` with every non-overlapping match of `pattern` replaced by
/// `rep`, as `regex::Regex::replace_all` builds it; meaningful only for a
/// valid pattern.
pub uninterp spec fn regex_replace(pattern: Seq<char>, text: Seq<char>, rep: Seq<char>) -> Seq<
    char,
>;

/// Relies on `regex::Regex::new`: whether a pattern compiles depends on
/// the pattern alone.
#[verifier::external_body]
pub(crate) fn regex_is_valid(pattern: &str) -> (r: bool)
    ensures
        r == regex_valid(pattern@),
{
    regex::Regex::new(pattern).is_ok()
}

/// Relies on `regex::Regex::new` and `regex::Regex::is_match`: whether a
/// text matches depends on the pattern and the text alone.  The pattern
/// is required to be valid, so the compilation cannot fail.
#[verifier::external_body]
pub(crate) fn regex_is_match(pattern: &str, text: &str) -> (r: bool)
    requires
        regex_valid(pattern@),
    ensures
        r == regex_match(pattern@, text@),
{
    match regex::Regex::new(pattern) {
        Ok(re) => re.is_match(text),
        Err(_) => false,
    }
}

/// Relies on `regex::Regex::new` and `regex::Regex::replace_all`: the
/// replaced text depends on the pattern, the text and the replacement
/// alone.  The pattern is required to be valid, so the compilation cannot
/// fail.
#[verifier::external_body]
pub(crate) fn regex_replace_all(pattern: &str, text: &str, rep: &str) -> (r: String)
    requires
        regex_valid(pattern@),
    ensures
        r@ == regex_replace(pattern@, text@, rep@),
{
    match regex::Regex::new(pattern) {
        Ok(re) => re.replace_all(text, rep).to_string(),
        Err(_) => String::new(),
    }
}

} // verus!
