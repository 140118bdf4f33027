use vstd::prelude::*;

verus! {

/// `regex::Regex`, carried through as an opaque value.
#[verifier::external_type_specification]
#[verifier::external_body]
pub struct ExRegex(regex::Regex);

/// `regex::Error`, the error of a pattern that does not compile.
#[verifier::external_type_specification]
#[verifier::external_body]
pub struct ExRegexError(regex::Error);

/// Whether `regex::Regex::new` accepts `pattern` (it is valid and within the default
/// size limit).
pub uninterp spec fn regex_compiles(pattern: Seq<char>) -> bool;

/// Whether the regex compiled from `pattern` matches anywhere in `haystack`.
pub uninterp spec fn regex_is_match(pattern: Seq<char>, haystack: Seq<char>) -> bool;

/// Trusted: `regex::Regex::new`. Claims only that it succeeds exactly on the patterns
/// named by `regex_compiles`; what the compiled value holds is not stated.
#[verifier::external_body]
fn compile_regex(pattern: &str) -> (r: Result<regex::Regex, regex::Error>)
    ensures
        r is Ok <==> regex_compiles(pattern@),
{
    regex::Regex::new(pattern)
}

/// A compiled regular expression together with the pattern it was compiled from.
///
/// The only constructor is `RegexKey::new`, so the compiled value always belongs to
/// the pattern that the view gives.
#[derive(Debug)]
pub struct RegexKey {
    pattern: String,
    compiled: regex::Regex,
}

impl View for RegexKey {
    type V = Seq<char>;

    closed spec fn view(&self) -> Seq<char> {
        self.pattern@
    }
}

/// Trusted: `regex::Regex::is_match` on the regex that `key` holds. Claims that the
/// answer is `regex_is_match` of the pattern the regex was compiled from (see
/// `RegexKey`) and the haystack; nothing more about regex semantics is stated.
#[verifier::external_body]
fn regex_key_is_match(key: &RegexKey, haystack: &str) -> (r: bool)
    ensures
        r == regex_is_match(key@, haystack@),
{
    key.compiled.is_match(haystack)
}

impl RegexKey {
    /// Compiles `pattern`; fails exactly when `regex::Regex::new` rejects it.
    pub fn new(pattern: &str) -> (r: Result<RegexKey, regex::Error>)
        ensures
            r is Ok <==> regex_compiles(pattern@),
            r matches Ok(k) ==> k@ == pattern@,
    {
        match compile_regex(pattern) {
            Ok(compiled) => Ok(RegexKey { pattern: pattern.to_owned(), compiled }),
            Err(e) => Err(e),
        }
    }

    /// Whether the pattern matches anywhere in `haystack`.
    pub fn is_match(&self, haystack: &str) -> (r: bool)
        ensures
            r == regex_is_match(self@, haystack@),
    {
        regex_key_is_match(self, haystack)
    }
}

} // verus!
