//! Glob and regular-expression patterns, compiled by the `glob` and `regex`
//! crates and matched against topic names and header values.

use vstd::prelude::*;

verus! {

#[verifier::external_type_specification]
#[verifier::external_body]
pub struct ExGlobPattern(glob::Pattern);

#[verifier::external_type_specification]
#[verifier::external_body]
pub struct ExRegex(regex::Regex);

/// What `glob::Pattern::new` reports for this pattern text: `None` when it
/// compiles, otherwise the text of its error.
pub uninterp spec fn glob_compile_error(pattern: Seq<char>) -> Option<Seq<char>>;

/// Whether `glob::Pattern::matches` (default match options) accepts `text`
/// for the pattern compiled from `pattern`.
pub uninterp spec fn glob_matches(pattern: Seq<char>, text: Seq<char>) -> bool;

/// What `regex::Regex::new` reports for this pattern text: `None` when it
/// compiles, otherwise the text of its error.
pub uninterp spec fn regex_compile_error(pattern: Seq<char>) -> Option<Seq<char>>;

/// Whether `regex::Regex::is_match` finds a match in `text` for the regex
/// compiled from `pattern`.
pub uninterp spec fn regex_matches(pattern: Seq<char>, text: Seq<char>) -> bool;

/// A compiled glob together with the text it was compiled from.
pub struct GlobPattern {
    inner: glob::Pattern,
    source: Ghost<Seq<char>>,
}

impl View for GlobPattern {
    type V = Seq<char>;

    closed spec fn view(&self) -> Seq<char> {
        self.source@
    }
}

/// A compiled regular expression together with the text it was compiled from.
pub struct RegexPattern {
    inner: regex::Regex,
    source: Ghost<Seq<char>>,
}

impl View for RegexPattern {
    type V = Seq<char>;

    closed spec fn view(&self) -> Seq<char> {
        self.source@
    }
}

/// Compiles a glob with `glob::Pattern::new`; on failure returns the error's
/// display text.
///
/// Trusted: `Pattern::new` is a deterministic function of the pattern text;
/// its outcome is named by `glob_compile_error`.
#[verifier::external_body]
pub(crate) fn compile_glob(pattern: &str) -> (r: Result<GlobPattern, String>)
    ensures
        match glob_compile_error(pattern@) {
            None => r matches Ok(p) && p@ == pattern@,
            Some(m) => r matches Err(e) && e@ == m,
        },
{
    match glob::Pattern::new(pattern) {
        Ok(inner) => Ok(GlobPattern { inner, source: Ghost(pattern@) }),
        Err(e) => Err(e.to_string()),
    }
}

/// Matches text against a compiled glob with `glob::Pattern::matches`.
///
/// Trusted: the result is a function of the pattern text and the input,
/// named by `glob_matches`.
#[verifier::external_body]
pub(crate) fn glob_is_match(pattern: &GlobPattern, text: &str) -> (r: bool)
    ensures
        r == glob_matches(pattern@, text@),
{
    pattern.inner.matches(text)
}

/// Compiles a regular expression with `regex::Regex::new`; on failure returns
/// the error's display text.
///
/// Trusted: `Regex::new` is a deterministic function of the pattern text; its
/// outcome is named by `regex_compile_error`.
#[verifier::external_body]
pub(crate) fn compile_regex(pattern: &str) -> (r: Result<RegexPattern, String>)
    ensures
        match regex_compile_error(pattern@) {
            None => r matches Ok(p) && p@ == pattern@,
            Some(m) => r matches Err(e) && e@ == m,
        },
{
    match regex::Regex::new(pattern) {
        Ok(inner) => Ok(RegexPattern { inner, source: Ghost(pattern@) }),
        Err(e) => Err(e.to_string()),
    }
}

/// Searches text with a compiled regular expression via `regex::Regex::is_match`.
///
/// Trusted: the result is a function of the pattern text and the input,
/// named by `regex_matches`.
#[verifier::external_body]
pub(crate) fn regex_is_match(pattern: &RegexPattern, text: &str) -> (r: bool)
    ensures
        r == regex_matches(pattern@, text@),
{
    pattern.inner.is_match(text)
}

} // verus!
