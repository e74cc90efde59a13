use regex::Regex;
use vstd::prelude::*;

verus! {

/// Whether `regex::Regex::new` accepts `pattern`.
pub uninterp spec fn regex_compiles(pattern: Seq<char>) -> bool;

/// Whether the regular expression `pattern` has a match somewhere in
/// `haystack`; false for a pattern that does not compile.
pub uninterp spec fn regex_is_match(pattern: Seq<char>, haystack: Seq<char>) -> bool;

/// Whether one of `patterns` has a match somewhere in `text`.
pub open spec fn matches_any(patterns: Seq<Seq<char>>, text: Seq<char>) -> bool {
    exists|i: int| 0 <= i < patterns.len() && regex_is_match(#[trigger] patterns[i], text)
}

/// The texts of a sequence of strings.
pub open spec fn texts(v: Seq<String>) -> Seq<Seq<char>> {
    v.map_values(|s: String| s@)
}

/// Calls `regex::Regex::new` and tells whether it returned a regular
/// expression. What it accepts is the crate's syntax together with its
/// default size limit, so the answer is named, not described.
#[verifier::external_body]
pub(crate) fn compiles(pattern: &str) -> (ok: bool)
    ensures
        ok == regex_compiles(pattern@),
{
    Regex::new(pattern).is_ok()
}

/// Compiles `pattern` with `regex::Regex::new` and asks `Regex::is_match`
/// whether it matches anywhere in `haystack`. A pattern that does not compile
/// matches nothing. The answer depends on the two texts alone.
#[verifier::external_body]
pub(crate) fn is_match(pattern: &str, haystack: &str) -> (m: bool)
    ensures
        m == regex_is_match(pattern@, haystack@),
        m ==> regex_compiles(pattern@),
{
    match Regex::new(pattern) {
        Ok(re) => re.is_match(haystack),
        Err(_) => false,
    }
}

/// Whether all of `patterns` compile.
pub open spec fn all_compile(patterns: Seq<Seq<char>>) -> bool {
    forall|i: int| 0 <= i < patterns.len() ==> regex_compiles(#[trigger] patterns[i])
}

/// Tells whether every pattern compiles.
pub fn check_patterns(patterns: &Vec<String>) -> (ok: bool)
    ensures
        ok == all_compile(texts(patterns@)),
{
    let mut i: usize = 0;
    while i < patterns.len()
        invariant
            i <= patterns@.len(),
            forall|k: int| 0 <= k < i ==> regex_compiles(#[trigger] texts(patterns@)[k]),
        decreases patterns@.len() - i,
    {
        if !compiles(patterns[i].as_str()) {
            assert(texts(patterns@)[i as int] == patterns@[i as int]@);
            return false;
        }
        assert(texts(patterns@)[i as int] == patterns@[i as int]@);
        i += 1;
    }
    true
}

/// Tells whether one of `patterns` matches somewhere in `text`.
pub fn any_match(patterns: &Vec<String>, text: &str) -> (m: bool)
    ensures
        m == matches_any(texts(patterns@), text@),
{
    let mut i: usize = 0;
    while i < patterns.len()
        invariant
            i <= patterns@.len(),
            forall|k: int| 0 <= k < i ==> !regex_is_match(#[trigger] texts(patterns@)[k], text@),
        decreases patterns@.len() - i,
    {
        assert(texts(patterns@)[i as int] == patterns@[i as int]@);
        if is_match(patterns[i].as_str(), text) {
            return true;
        }
        i += 1;
    }
    false
}

} // verus!
