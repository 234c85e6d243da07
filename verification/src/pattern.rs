//! Regular-expression matching through `regex_lite`.

use vstd::prelude::*;

verus! {

/// Whether `regex_lite` accepts `pattern` as a regular expression.
pub uninterp spec fn regex_compiles(pattern: Seq<char>) -> bool;

/// Whether the regular expression `pattern` matches somewhere in `haystack`,
/// as `regex_lite::Regex::is_match` decides it.
pub uninterp spec fn regex_matches(pattern: Seq<char>, haystack: Seq<char>) -> bool;

/// `regex_lite::Regex` is carried as an opaque value.
#[verifier::external_type_specification]
#[verifier::external_body]
pub struct ExRegex(regex_lite::Regex);

/// A compiled regular expression together with its source text.
pub struct CompiledPattern {
    source: String,
    compiled: regex_lite::Regex,
}

impl CompiledPattern {
    /// The pattern text this value was compiled from.
    pub closed spec fn source(&self) -> Seq<char> {
        self.source@
    }
}

/// Calls `regex_lite::Regex::new`; `Some` exactly when the pattern compiles,
/// holding the compiled value and its source text.
#[verifier::external_body]
pub fn compile_pattern(pattern: &str) -> (r: Option<CompiledPattern>)
    ensures
        r is Some <==> regex_compiles(pattern@),
        r matches Some(p) ==> p.source() == pattern@,
{
    match regex_lite::Regex::new(pattern) {
        Ok(compiled) => Some(CompiledPattern { source: pattern.to_string(), compiled }),
        Err(_) => None,
    }
}

/// Calls `regex_lite::Regex::is_match`; the result is whether the pattern
/// matches somewhere in `haystack`.
#[verifier::external_body]
pub fn pattern_is_match(p: &CompiledPattern, haystack: &str) -> (r: bool)
    ensures
        r == regex_matches(p.source(), haystack@),
{
    p.compiled.is_match(haystack)
}

/// Whether `pattern` compiles and matches somewhere in `haystack`.
pub open spec fn finds(pattern: Seq<char>, haystack: Seq<char>) -> bool {
    regex_compiles(pattern) && regex_matches(pattern, haystack)
}

/// Compiles `pattern` and searches `haystack`; `false` when the pattern does not compile.
pub fn find_pattern(pattern: &str, haystack: &str) -> (r: bool)
    ensures
        r == finds(pattern@, haystack@),
{
    match compile_pattern(pattern) {
        Some(p) => pattern_is_match(&p, haystack),
        None => false,
    }
}

} // verus!
