//! Compiled regular expressions from the `regex` crate, and case folding.
//! What these calls compute is named here; the rest of the library reasons
//! over those names.
use vstd::prelude::*;

verus! {

#[verifier::external_type_specification]
#[verifier::external_body]
pub struct ExRegex(regex::Regex);

#[verifier::external_type_specification]
#[verifier::external_body]
pub struct ExRegexError(regex::Error);

/// Whether `regex::Regex::new` accepts this pattern.
pub uninterp spec fn regex_compiles(pattern: Seq<char>) -> bool;

/// Whether the regex compiled from `pattern` matches somewhere in `haystack`.
pub uninterp spec fn regex_is_match(pattern: Seq<char>, haystack: Seq<char>) -> bool;

/// What `str::to_lowercase` makes of `s`.
pub uninterp spec fn lower_of(s: Seq<char>) -> Seq<char>;

/// The characters that the regex syntax gives a meaning beyond themselves
/// outside a character class.
pub open spec fn is_meta_char(c: char) -> bool {
    c == '\\' || c == '.' || c == '+' || c == '*' || c == '?' || c == '(' || c == ')' || c == '|'
        || c == '[' || c == ']' || c == '{' || c == '}' || c == '^' || c == '$'
}

/// A pattern with no meta character: as a regex it stands for itself.
pub open spec fn is_literal(pattern: Seq<char>) -> bool {
    forall|i: int| 0 <= i < pattern.len() ==> !is_meta_char(#[trigger] pattern[i])
}

/// `needle` occurs in `haystack` as a contiguous run.
pub open spec fn contains(haystack: Seq<char>, needle: Seq<char>) -> bool {
    exists|i: int|
        0 <= i && i + needle.len() <= haystack.len() && #[trigger] haystack.subrange(
            i,
            i + needle.len(),
        ) == needle
}

/// A compiled regex together with the pattern it was compiled from.
pub(crate) struct Matcher {
    re: regex::Regex,
    pattern: Ghost<Seq<char>>,
}

impl Matcher {
    pub closed spec fn source(&self) -> Seq<char> {
        self.pattern@
    }
}

/// Relies on regex::Regex::new: it either compiles the pattern or reports
/// why not, depending on the pattern alone; the empty pattern compiles.
#[verifier::external_body]
pub(crate) fn compile(pattern: &str) -> (r: Result<Matcher, regex::Error>)
    ensures
        r is Ok <==> regex_compiles(pattern@),
        r is Ok ==> r->Ok_0.source() == pattern@,
        pattern@.len() == 0 ==> r is Ok,
{
    regex::Regex::new(pattern).map(|re| Matcher { re, pattern: Ghost(pattern@) })
}

/// Relies on regex::Regex::is_match: true iff the regex matches somewhere in
/// the haystack; a pattern without meta characters matches itself literally.
#[verifier::external_body]
pub(crate) fn is_match(m: &Matcher, haystack: &str) -> (r: bool)
    ensures
        r == regex_is_match(m.source(), haystack@),
        is_literal(m.source()) ==> (r <==> contains(haystack@, m.source())),
{
    m.re.is_match(haystack)
}

/// Relies on str::to_lowercase: the result depends on the characters alone,
/// and the empty string stays empty.
#[verifier::external_body]
pub(crate) fn lowercase(s: &str) -> (r: String)
    ensures
        r@ == lower_of(s@),
        s@.len() == 0 ==> r@.len() == 0,
{
    s.to_lowercase()
}

} // verus!
