//! The regular expression that restricts which characters may become a
//! selection letter.

use vstd::prelude::*;
use regex::Regex;

verus! {

/// `regex::Regex`, a compiled regular expression. Nothing is known of what
/// it holds.
#[verifier::external_type_specification]
#[verifier::external_body]
pub struct ExRegex(regex::Regex);

/// `regex::Error`, the reason why a pattern text did not compile.
#[verifier::external_type_specification]
#[verifier::external_body]
pub struct ExRegexError(regex::Error);

/// What `Regex::new` makes of a pattern text: the compiled expression, or
/// nothing where the text is no valid pattern or compiles to more than the
/// default size limit.
pub uninterp spec fn compiled(source: Seq<char>) -> Option<Regex>;

/// What `Regex::is_match` answers, for the expression that `Regex::new` makes
/// of the pattern text `source`, when asked about `haystack`.
pub uninterp spec fn pattern_matches(source: Seq<char>, haystack: Seq<char>) -> bool;

/// Calls `Regex::new`. It returns an error for a text that it cannot compile
/// and never panics; what it returns depends on the text alone.
#[verifier::external_body]
pub(crate) fn compile(source: &str) -> (result: Result<Regex, regex::Error>)
    ensures
        match result {
            Ok(re) => compiled(source@) == Some(re),
            Err(_) => compiled(source@) is None,
        },
{
    Regex::new(source)
}

/// Calls `Regex::is_match`: whether the expression matches anywhere in the
/// haystack. For an expression that `Regex::new` made of a pattern text, the
/// answer depends on that text and the haystack alone.
#[verifier::external_body]
pub(crate) fn is_match(re: &Regex, haystack: &str) -> (matched: bool)
    ensures
        forall|source: Seq<char>|
            compiled(source) == Some(*re) ==> matched == pattern_matches(source, haystack@),
{
    re.is_match(haystack)
}

/// Whether a pattern text compiles.
pub open spec fn compiles(source: Seq<char>) -> bool {
    compiled(source) is Some
}

/// Whether the pattern, if there is one, matches the character taken as a
/// string of its own.
pub open spec fn pattern_accepts(pattern: Option<Seq<char>>, c: char) -> bool {
    match pattern {
        Some(source) => pattern_matches(source, seq![c]),
        None => true,
    }
}

/// A pattern text together with the expression compiled from it.
pub struct Pattern {
    source: String,
    regex: Regex,
}

impl View for Pattern {
    type V = Seq<char>;

    closed spec fn view(&self) -> Seq<char> {
        self.source@
    }
}

impl DeepView for Pattern {
    type V = Seq<char>;

    open spec fn deep_view(&self) -> Seq<char> {
        self@
    }
}

impl Pattern {
    #[verifier::type_invariant]
    spec fn inv(self) -> bool {
        compiled(self.source@) == Some(self.regex)
    }

    /// Compiles a pattern text; `None` where the text does not compile.
    pub fn new(source: &str) -> (pattern: Option<Pattern>)
        ensures
            pattern.deep_view() == if compiles(source@) {
                Some(source@)
            } else {
                None
            },
    {
        match compile(source) {
            Ok(regex) => Some(Pattern { source: source.to_owned(), regex }),
            Err(_) => None,
        }
    }

    /// The pattern text.
    pub fn as_str(&self) -> (source: &str)
        ensures
            source@ == self@,
            compiles(self@),
    {
        proof {
            use_type_invariant(self);
        }
        self.source.as_str()
    }

    /// Whether the pattern matches anywhere in the haystack.
    pub fn is_match(&self, haystack: &str) -> (matched: bool)
        ensures
            matched == pattern_matches(self@, haystack@),
    {
        proof {
            use_type_invariant(self);
        }
        is_match(&self.regex, haystack)
    }
}

/// Decides `pattern_accepts`.
pub fn accepts_char(pattern: &Option<Pattern>, c: char) -> (accepted: bool)
    ensures
        accepted == pattern_accepts(pattern.deep_view(), c),
{
    match pattern {
        Some(pattern) => {
            let mut text = String::new();
            text.push(c);
            assert(text@ =~= seq![c]);
            pattern.is_match(text.as_str())
        },
        None => true,
    }
}

} // verus!
