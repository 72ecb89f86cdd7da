//! Patterns on file names.
//!
//! A pattern is compiled once and then tried on many names. The regular
//! expression engine is the `regex` crate; what it builds and what it finds
//! is taken on trust and given the names below, so that every contract that
//! rests on it says so.

use vstd::prelude::*;

verus! {

#[verifier::external_type_specification]
#[verifier::external_body]
pub struct ExRegex(regex::Regex);

#[verifier::external_type_specification]
#[verifier::external_body]
pub struct ExRegexError(regex::Error);

/// The expression that the engine builds from `pattern`, with the limits and
/// options it has by default, or `None` where it refuses the pattern: what
/// `regex::Regex::new` returns for it.
pub uninterp spec fn regex_compiled(pattern: Seq<char>) -> Option<regex::Regex>;

/// The text that a compiled expression was built from: what
/// `regex::Regex::as_str` returns for it.
pub uninterp spec fn regex_source(re: regex::Regex) -> Seq<char>;

/// Whether a compiled expression has a match anywhere in `text`: what
/// `regex::Regex::is_match` returns for the two.
pub uninterp spec fn regex_matches(re: regex::Regex, text: Seq<char>) -> bool;

/// Whether the engine compiles `pattern`.
pub open spec fn regex_accepts(pattern: Seq<char>) -> bool {
    regex_compiled(pattern) is Some
}

/// Whether the expression written as `pattern` has a match anywhere in
/// `text`.
pub open spec fn regex_finds(pattern: Seq<char>, text: Seq<char>) -> bool {
    regex_matches(regex_compiled(pattern)->0, text)
}

/// `regex::Regex::new`. Trusted: what it returns depends on the pattern
/// alone, so that two expressions built from one pattern are one expression;
/// and the expression keeps the text it was built from.
pub assume_specification[ regex::Regex::new ](re: &str) -> (r: Result<regex::Regex, regex::Error>)
    ensures
        r is Ok <==> regex_compiled(re@) is Some,
        r matches Ok(compiled) ==> regex_compiled(re@) == Some(compiled) && regex_source(compiled)
            == re@,
;

/// `regex::Regex::is_match`. Trusted: the answer depends on nothing but the
/// expression and the text that is searched.
pub assume_specification[ regex::Regex::is_match ](re: &regex::Regex, haystack: &str) -> (b: bool)
    ensures
        b == regex_matches(*re, haystack@),
;

/// `regex::Regex::as_str`. Trusted: it returns the text that the expression
/// was built from.
pub assume_specification<'a>[ regex::Regex::as_str ](re: &'a regex::Regex) -> (s: &'a str)
    ensures
        s@ == regex_source(*re),
;

/// The engine's own words for why it refused a pattern (`regex::Error`,
/// through its `Display`). Nothing is claimed of the text.
#[verifier::external_body]
fn refusal_text(error: &regex::Error) -> (text: String) {
    error.to_string()
}

/// Why a pattern could not be compiled.
#[derive(Debug, Clone, PartialEq, Eq)]
pub struct CompileError {
    /// The pattern as it was given.
    pub pattern: String,
    /// What the engine said of it.
    pub reason: String,
}

/// A pattern that the engine has accepted, ready to be tried on names.
pub struct CompiledPattern {
    regex: regex::Regex,
}

impl View for CompiledPattern {
    type V = Seq<char>;

    /// The text of the pattern.
    closed spec fn view(&self) -> Seq<char> {
        regex_source(self.regex)
    }
}

impl CompiledPattern {
    /// The expression is the one that the engine builds from its own text.
    #[verifier::type_invariant]
    spec fn built_from_source(self) -> bool {
        regex_compiled(regex_source(self.regex)) == Some(self.regex)
    }

    /// The text that the pattern was compiled from.
    pub fn source(&self) -> (text: &str)
        ensures
            text@ == self@,
    {
        self.regex.as_str()
    }

    /// Whether the pattern has a match in `file_name`.
    pub fn is_match(&self, file_name: &str) -> (found: bool)
        ensures
            found == regex_finds(self@, file_name@),
    {
        proof {
            use_type_invariant(self);
        }
        self.regex.is_match(file_name)
    }
}

/// What `compile` returns on `pattern`, seen through the views.
pub open spec fn spec_compile(pattern: Seq<char>) -> Option<Seq<char>> {
    if regex_accepts(pattern) {
        Some(pattern)
    } else {
        None
    }
}

/// Compiles `pattern`. It fails exactly on the patterns that the engine
/// refuses, and then says which pattern and why.
pub fn compile(pattern: &str) -> (r: Result<CompiledPattern, CompileError>)
    ensures
        r is Ok <==> regex_accepts(pattern@),
        r matches Ok(compiled) ==> spec_compile(pattern@) == Some(compiled@),
        r matches Err(error) ==> error.pattern@ == pattern@,
{
    match regex::Regex::new(pattern) {
        Ok(regex) => Ok(CompiledPattern { regex }),
        Err(error) => Err(
            CompileError { pattern: pattern.to_owned(), reason: refusal_text(&error) },
        ),
    }
}

/// Compiling and then matching is what the engine does when it is asked
/// directly: for every pattern that it accepts and every name, the compiled
/// pattern finds a match exactly where the engine's own expression for that
/// pattern does.
pub proof fn law_compiled_agrees_with_engine(pattern: Seq<char>, file_name: Seq<char>)
    requires
        regex_accepts(pattern),
    ensures
        spec_compile(pattern) matches Some(compiled) && regex_finds(compiled, file_name)
            == regex_matches(regex_compiled(pattern)->0, file_name),
{
}

} // verus!
