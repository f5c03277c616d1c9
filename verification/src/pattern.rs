//! Searches with regular expressions, handed out as byte offsets.

use crate::text::on_boundary;
use regex::Regex;
use vstd::prelude::*;

verus! {

#[verifier::external_type_specification]
#[verifier::external_body]
pub struct ExRegex(Regex);

/// A half-open range of byte offsets into a text.
#[derive(Clone, Copy, Debug)]
pub struct Span {
    pub start: usize,
    pub end: usize,
}

/// One match of an expression: the whole match, and its first capture group where that
/// group took part in the match.
#[derive(Clone, Copy, Debug)]
pub struct Capture {
    pub whole: Span,
    pub group: Option<Span>,
}

/// The expression that matches a placeholder: an identifier of word characters between
/// two pairs of underscores. The identifier is the first capture group.
pub const PLACEHOLDER: &'static str = "__(\\w+)__";

/// The expression that matches a reference to a variable of the environment: the
/// name of the variable between `${` and the next `}`. The name is the first capture
/// group.
pub const ENV_REFERENCE: &'static str = "\\$\\{(?P<env_key>.*?)\\}";

/// The expression that `re` searches for, as `Regex::new` reads it: the text that `re`
/// was compiled from.
pub uninterp spec fn pattern_of(re: Regex) -> Seq<char>;

/// The leftmost match of the expression `pattern` in `haystack`, if there is one.
pub uninterp spec fn regex_find(pattern: Seq<char>, haystack: Seq<char>) -> Option<Span>;

/// The successive matches of the expression `pattern` in `haystack` that do not
/// overlap, from left to right.
pub uninterp spec fn regex_captures(pattern: Seq<char>, haystack: Seq<char>) -> Seq<Capture>;

/// Whether `span` is a range of bytes of `text` that starts and ends between characters.
pub open spec fn span_in(span: Span, text: Seq<char>) -> bool {
    &&& span.start <= span.end
    &&& on_boundary(text, span.start as int)
    &&& on_boundary(text, span.end as int)
}

/// Whether `captures` can be matches in `text`: each span lies in the text, and each
/// match ends before the next one starts.
pub open spec fn captures_fit(captures: Seq<Capture>, text: Seq<char>) -> bool {
    &&& forall|i: int|
        0 <= i < captures.len() ==> span_in((#[trigger] captures[i]).whole, text) && (
        captures[i].group matches Some(group) ==> span_in(group, text))
    &&& forall|i: int, j: int|
        0 <= i < j < captures.len() ==> (#[trigger] captures[i]).whole.end <= (
        #[trigger] captures[j]).whole.start
}

/// Compiles one of the two expressions of this library with `Regex::new`, which
/// accepts both. The contract claims that what comes back searches for the expression
/// it was compiled from, the text that `Regex::as_str` reports.
#[verifier::external_body]
pub(crate) fn compile(pattern: &str) -> (re: Regex)
    requires
        pattern@ == PLACEHOLDER@ || pattern@ == ENV_REFERENCE@,
    ensures
        pattern_of(re) == pattern@,
{
    Regex::new(pattern).unwrap()
}

/// Searches with `Regex::find` and hands out the offsets of the match, `Match::start`
/// and `Match::end`. The contract names the result, which the expression and the
/// haystack decide, and claims what the documentation of `Match` guarantees: the start
/// is not after the end, and both fall on character boundaries of the haystack.
#[verifier::external_body]
pub(crate) fn find(re: &Regex, haystack: &str) -> (r: Option<Span>)
    ensures
        r == regex_find(pattern_of(*re), haystack@),
        r matches Some(span) ==> span_in(span, haystack@),
{
    re.find(haystack).map(|m| Span { start: m.start(), end: m.end() })
}

/// Searches with `Regex::captures_iter` and hands out, for each item, the offsets of
/// the whole match (`Captures::get_match`) and of the first group (`Captures::get`).
/// The contract names the result, which the expression and the haystack decide, and
/// claims what the documentation guarantees: the matches are successive and do not
/// overlap, and every offset falls on a character boundary of the haystack, a start
/// never after its end.
#[verifier::external_body]
pub(crate) fn captures(re: &Regex, haystack: &str) -> (r: Vec<Capture>)
    ensures
        r@ == regex_captures(pattern_of(*re), haystack@),
        captures_fit(r@, haystack@),
{
    re.captures_iter(haystack)
        .map(|c| Capture {
            whole: Span { start: c.get_match().start(), end: c.get_match().end() },
            group: c.get(1).map(|m| Span { start: m.start(), end: m.end() }),
        })
        .collect()
}

} // verus!
