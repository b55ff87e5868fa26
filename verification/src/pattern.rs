//! Regular expressions that recognise ordered-list markers, through the
//! `regex` crate.
use vstd::prelude::*;

verus! {

/// The `regex` crate's compiled regular expression.
#[verifier::external_type_specification]
#[verifier::external_body]
pub struct ExRegex(regex::Regex);

/// A regular expression with the source it was compiled from.
pub struct CompiledPattern {
    source: String,
    regex: regex::Regex,
}

impl CompiledPattern {
    /// The source the expression was compiled from.
    pub closed spec fn source(self) -> Seq<char> {
        self.source@
    }
}

/// What the first match of an expression captured: the length in bytes of
/// the whole match, and the text of the first group.
pub struct RegexCaptures {
    /// The length in bytes of the whole match.
    pub whole_len: Option<usize>,
    /// The text of the first group, if it took part in the match.
    pub group1: Option<String>,
}

/// Whether `regex::Regex::new` accepts `pattern`.
pub uninterp spec fn pattern_compiles(pattern: Seq<char>) -> bool;

/// What `regex::Regex::captures` finds first in `text` for the expression
/// compiled from `pattern`: the whole match's length in bytes and the first
/// group's text.
pub uninterp spec fn first_captures(pattern: Seq<char>, text: Seq<char>) -> Option<
    (Option<nat>, Option<Seq<char>>),
>;

/// The plain value of a capture result.
pub open spec fn captures_view(c: RegexCaptures) -> (Option<nat>, Option<Seq<char>>) {
    (
        match c.whole_len {
            Some(l) => Some(l as nat),
            None => None,
        },
        match c.group1 {
            Some(g) => Some(g@),
            None => None,
        },
    )
}

/// Calls `regex::Regex::new`: the expression compiles exactly when
/// `pattern_compiles` holds of the pattern; the compiled expression keeps its source.
#[verifier::external_body]
pub(crate) fn compile_pattern(pattern: &str) -> (r: Option<CompiledPattern>)
    ensures
        r is Some == pattern_compiles(pattern@),
        r matches Some(p) ==> p.source() == pattern@,
{
    match regex::Regex::new(pattern) {
        Ok(regex) => Some(CompiledPattern { source: pattern.to_string(), regex }),
        Err(_) => None,
    }
}

/// Calls `regex::Regex::captures`: its result is `first_captures` of the
/// expression's source and `text`; the whole match always takes part, as the
/// crate documents for group 0.
#[verifier::external_body]
pub(crate) fn captures(p: &CompiledPattern, text: &str) -> (r: Option<RegexCaptures>)
    ensures
        match r {
            Some(c) => first_captures(p.source(), text@) == Some(captures_view(c))
                && c.whole_len is Some,
            None => first_captures(p.source(), text@) is None,
        },
{
    match p.regex.captures(text) {
        Some(c) => Some(
            RegexCaptures {
                whole_len: match c.get(0) {
                    Some(m) => Some(m.len()),
                    None => None,
                },
                group1: match c.get(1) {
                    Some(m) => Some(m.as_str().to_string()),
                    None => None,
                },
            },
        ),
        None => None,
    }
}

} // verus!
