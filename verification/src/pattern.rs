//! Regular-expression searches over source lines.
//!
//! The matching itself is done by the `regex` crate. What a search returns is
//! not proved here: it is named by the spec functions below, and the
//! rest of the library states its contracts over those names.

use crate::text::optional_text;
use regex::Regex;
use vstd::prelude::*;

verus! {

/// `regex::Regex`, a compiled expression. Nothing inside it is visible
/// here; `regex_source` names the one thing that the contracts say of it.
#[verifier::external_type_specification]
#[verifier::external_body]
pub struct ExRegex(regex::Regex);

/// `regex::Error`, the reason why a pattern did not compile. It is only
/// told apart from success.
#[verifier::external_type_specification]
#[verifier::external_body]
pub struct ExRegexError(regex::Error);

/// Whether `regex::Regex::new` accepts `pattern`.
pub uninterp spec fn regex_compiles(pattern: Seq<char>) -> bool;

/// The pattern text that a compiled expression was built from and holds:
/// what `regex::Regex::as_str` returns. Every expression in this library is
/// built by `regex::Regex::new`, with the default options, so that its text
/// alone decides what it matches.
pub uninterp spec fn regex_source(re: Regex) -> Seq<char>;

/// Whether the expression compiled from `pattern` matches anywhere in
/// `haystack`, as `regex::Regex::is_match` reports it.
pub uninterp spec fn regex_is_match(pattern: Seq<char>, haystack: Seq<char>) -> bool;

/// The text that the capture group called `group` holds in the leftmost match
/// of the expression compiled from `pattern` in `haystack`, as
/// `regex::Regex::captures` followed by `Captures::name` reports it; `None`
/// where there is no match or the group took no part in it.
pub uninterp spec fn regex_capture(
    pattern: Seq<char>,
    haystack: Seq<char>,
    group: Seq<char>,
) -> Option<Seq<char>>;

/// `regex::Regex::new`: compiles `pattern`. Compilation depends on the
/// pattern text alone, and the compiled expression remembers that text.
#[verifier::external_body]
fn compile(pattern: &str) -> (r: Result<Regex, regex::Error>)
    ensures
        r is Ok <==> regex_compiles(pattern@),
        r matches Ok(re) ==> regex_source(re) == pattern@,
{
    Regex::new(pattern)
}

/// `regex::Regex::is_match`: whether `re` matches anywhere in `haystack`. For
/// an expression that `regex::Regex::new` built, and this module builds no
/// other, the answer depends on the pattern text and the haystack alone.
#[verifier::external_body]
fn is_match(re: &Regex, haystack: &str) -> (r: bool)
    ensures
        r == regex_is_match(regex_source(*re), haystack@),
{
    re.is_match(haystack)
}

/// `regex::Regex::captures`, then `Captures::name` and `Match::as_str`: the
/// text of the named group in the leftmost match, copied into a `String`. For
/// an expression that `regex::Regex::new` built, and this module builds no
/// other, it depends on the pattern text, the haystack and the name alone.
#[verifier::external_body]
fn capture(re: &Regex, haystack: &str, group: &str) -> (r: Option<String>)
    ensures
        optional_text(r) == regex_capture(regex_source(*re), haystack@, group@),
{
    match re.captures(haystack) {
        Some(found) => match found.name(group) {
            Some(part) => Some(part.as_str().to_string()),
            None => None,
        },
        None => None,
    }
}

/// Whether `pattern` is a valid expression that matches somewhere in
/// `haystack`.
pub open spec fn finds(pattern: Seq<char>, haystack: Seq<char>) -> bool {
    regex_compiles(pattern) && regex_is_match(pattern, haystack)
}

/// The text of the capture group `group` in the leftmost match of `pattern`
/// in `haystack`, where `pattern` is a valid expression.
pub open spec fn captured(pattern: Seq<char>, haystack: Seq<char>, group: Seq<char>) -> Option<
    Seq<char>,
> {
    if regex_compiles(pattern) {
        regex_capture(pattern, haystack, group)
    } else {
        None
    }
}

/// A pattern that was compiled once, to be searched for in many lines. A
/// pattern that does not compile is kept too: it is found nowhere.
pub struct Pattern {
    source: String,
    compiled: Option<Regex>,
}

impl View for Pattern {
    type V = Seq<char>;

    /// The text of the pattern.
    closed spec fn view(&self) -> Seq<char> {
        self.source@
    }
}

impl Pattern {
    /// The compiled expression is the one that the pattern's text compiles
    /// to, and it is absent only where the text does not compile.
    #[verifier::type_invariant]
    spec fn is_compiled_from_source(&self) -> bool {
        match self.compiled {
            Some(re) => regex_compiles(self.source@) && regex_source(re) == self.source@,
            None => !regex_compiles(self.source@),
        }
    }

    /// Compiles `pattern`.
    pub fn new(pattern: &str) -> (compiled: Pattern)
        ensures
            compiled@ == pattern@,
    {
        let compiled = match compile(pattern) {
            Ok(re) => Some(re),
            Err(_) => None,
        };
        Pattern { source: String::from_str(pattern), compiled }
    }

    /// Whether the pattern is found somewhere in `haystack`.
    pub fn search(&self, haystack: &str) -> (found: bool)
        ensures
            found == finds(self@, haystack@),
    {
        proof {
            use_type_invariant(self);
        }
        match &self.compiled {
            Some(re) => is_match(re, haystack),
            None => false,
        }
    }

    /// The text of the capture group `group` in the leftmost match of the
    /// pattern in `haystack`.
    pub fn extract(&self, haystack: &str, group: &str) -> (text: Option<String>)
        ensures
            optional_text(text) == captured(self@, haystack@, group@),
    {
        proof {
            use_type_invariant(self);
        }
        match &self.compiled {
            Some(re) => capture(re, haystack, group),
            None => None,
        }
    }
}

} // verus!
