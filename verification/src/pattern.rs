//! The search pattern: an opaque compiled form carried next to the text it
//! was compiled from. The crate's logic treats matching as a capability of
//! the pattern engine and never reimplements it.

use vstd::prelude::*;
use grep::matcher::Matcher;

verus! {

/// Whether the pattern engine accepts a pattern text.
pub uninterp spec fn pattern_valid(pattern: Seq<char>) -> bool;

/// Whether a pattern matches a line of content. The result depends on the
/// pattern's text and the line alone.
pub uninterp spec fn pattern_hits(pattern: Seq<char>, line: Seq<u8>) -> bool;

/// Relies on `grep::regex::RegexMatcher`: the compiled form of one pattern.
#[verifier::external_type_specification]
#[verifier::external_body]
pub struct ExRegexMatcher(grep::regex::RegexMatcher);

/// One search pattern, compiled for matching. The matcher is always the
/// compiled form of `text`: `Pattern::new` is the only constructor.
#[derive(Debug)]
pub struct Pattern {
    text: String,
    matcher: grep::regex::RegexMatcher,
}

impl View for Pattern {
    type V = Seq<char>;

    closed spec fn view(&self) -> Seq<char> {
        self.text@
    }
}

impl Pattern {
    /// Relies on `grep::regex::RegexMatcher::new`: it accepts exactly the
    /// texts that are valid patterns, and the matcher is a function of the
    /// text alone.
    #[verifier::external_body]
    pub(crate) fn new(text: &str) -> (r: Result<Pattern, String>)
        ensures
            match r {
                Ok(p) => p@ == text@ && pattern_valid(text@),
                Err(_) => !pattern_valid(text@),
            },
    {
        match grep::regex::RegexMatcher::new(text) {
            Ok(matcher) => Ok(Pattern { text: text.to_owned(), matcher }),
            Err(e) => Err(e.to_string()),
        }
    }

    /// Relies on `grep::matcher::Matcher::is_match` of the compiled matcher:
    /// whether the pattern matches the line, a function of the pattern's
    /// text and the line alone. The matcher reports no error.
    #[verifier::external_body]
    pub(crate) fn is_match(&self, line: &[u8]) -> (r: bool)
        ensures
            r == pattern_hits(self@, line@),
    {
        self.matcher.is_match(line).unwrap_or(false)
    }
}

} // verus!
