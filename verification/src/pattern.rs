//! Regular expressions (from the `regex` crate), as used to select controllers and sensors by name.

use vstd::prelude::*;

verus! {

#[verifier::external_type_specification]
#[verifier::external_body]
pub struct ExRegex(regex::Regex);

/// What compiling `pattern` as a regular expression gives: `None` when it compiles,
/// else the text of the error (as `regex::Regex::new` reports it).
pub uninterp spec fn regex_error(pattern: Seq<char>) -> Option<Seq<char>>;

/// Whether the regular expression `pattern` matches somewhere in `haystack`
/// (as `regex::Regex::is_match` answers for a `Regex` compiled from `pattern`).
pub uninterp spec fn regex_is_match(pattern: Seq<char>, haystack: Seq<char>) -> bool;

/// Compiles `pattern` (calls `regex::Regex::new`).
/// Trusted: the outcome depends on the pattern alone; the error, if any, is given as its
/// displayed text.
#[verifier::external_body]
fn compile_regex(pattern: &str) -> (r: Result<regex::Regex, String>)
    ensures
        r is Ok <==> regex_error(pattern@) is None,
        r matches Err(e) ==> regex_error(pattern@) == Some(e@),
{
    regex::Regex::new(pattern).map_err(|e| format!("{e}"))
}

/// A compiled regular expression, together with the text it was compiled from.
pub struct Pattern {
    source: String,
    regex: regex::Regex,
}

impl Pattern {
    /// The text this pattern was compiled from.
    pub closed spec fn source(&self) -> Seq<char> {
        self.source@
    }

    /// Compiles `pattern`; the error is the text that the `regex` crate gives for it.
    pub fn new(pattern: &str) -> (r: Result<Pattern, String>)
        ensures
            r is Ok <==> regex_error(pattern@) is None,
            r matches Ok(p) ==> p.source() == pattern@,
            r matches Err(e) ==> regex_error(pattern@) == Some(e@),
    {
        match compile_regex(pattern) {
            Ok(regex) => Ok(Pattern { source: String::from_str(pattern), regex }),
            Err(e) => Err(e),
        }
    }

    /// Matches the compiled regular expression against `haystack` (calls
    /// `regex::Regex::is_match`). Trusted: a `Pattern` is only built by [`Self::new`], which
    /// compiles `regex` from `source`, so the answer is the one named `regex_is_match` for
    /// `source` and `haystack`.
    #[verifier::external_body]
    fn regex_matches(&self, haystack: &str) -> (r: bool)
        ensures
            r == regex_is_match(self.source(), haystack@),
    {
        self.regex.is_match(haystack)
    }

    /// Whether this pattern matches somewhere in `haystack`.
    pub fn is_match(&self, haystack: &str) -> (r: bool)
        ensures
            r == regex_is_match(self.source(), haystack@),
    {
        self.regex_matches(haystack)
    }

    /// The text this pattern was compiled from.
    pub fn as_str(&self) -> (r: &str)
        ensures
            r@ == self.source(),
    {
        self.source.as_str()
    }
}

} // verus!
