//! Regular-expression searches, made by the `regex` crate.
use vstd::prelude::*;

verus! {

/// The `regex` crate's compiled regular expression (opaque here).
#[verifier::external_type_specification]
#[verifier::external_body]
pub struct ExRegex(regex::Regex);

/// The `regex` crate's compile error (opaque here).
#[verifier::external_type_specification]
#[verifier::external_body]
pub struct ExRegexError(regex::Error);

/// Whether `regex::Regex::new` accepts the pattern.
pub uninterp spec fn regex_compiles(pattern: Seq<char>) -> bool;

/// Whether `regex::Regex::captures` finds a match of the compiled pattern
/// anywhere in the haystack.
pub uninterp spec fn regex_finds(pattern: Seq<char>, haystack: Seq<char>) -> bool;

/// A regular expression together with the pattern it was compiled from.
/// Only `compile` builds one, so `re` is always the compiled `source`.
pub struct CompiledPattern {
    source: String,
    re: regex::Regex,
}

impl View for CompiledPattern {
    type V = Seq<char>;

    closed spec fn view(&self) -> Seq<char> {
        self.source@
    }
}

/// Compiles `source` with `regex::Regex::new`. Trusted: the result is `Ok`
/// exactly when the crate accepts the pattern (a fixed function of the
/// pattern, named `regex_compiles`), and an `Ok` value remembers the pattern.
#[verifier::external_body]
pub(crate) fn compile(source: String) -> (r: Result<CompiledPattern, regex::Error>)
    ensures
        r is Ok <==> regex_compiles(source@),
        r matches Ok(p) ==> p@ == source@,
{
    match regex::Regex::new(source.as_str()) {
        Ok(re) => Ok(CompiledPattern { source, re }),
        Err(e) => Err(e),
    }
}

/// Searches `haystack` with `regex::Regex::captures`. Trusted: the result
/// is whether a match was found, a fixed function of pattern and haystack
/// (named `regex_finds`); what the match captured is not used.
#[verifier::external_body]
pub(crate) fn captures_found(p: &CompiledPattern, haystack: &str) -> (r: bool)
    ensures
        r == regex_finds(p@, haystack@),
{
    p.re.captures(haystack).is_some()
}

} // verus!
