//! The regular expressions that find and read annotations.
//!
//! Matching is left to the `regex` crate. This module names what its calls
//! return, so that the rest of the crate can say exactly how it uses them.
use vstd::prelude::*;
use regex::Regex;

verus! {

/// `regex::Regex`, a compiled expression. Nothing inside it is visible
/// here.
#[verifier::external_type_specification]
#[verifier::external_body]
pub struct ExRegex(Regex);

/// `regex::Error`, the reason for which a pattern was refused.
#[verifier::external_type_specification]
#[verifier::external_body]
pub struct ExRegexError(regex::Error);

/// The expression that `Regex::new` builds from `pattern`, or `None` where
/// it refuses the pattern.
pub uninterp spec fn compiled(pattern: Seq<char>) -> Option<Regex>;

/// What `Regex::find` reports for `haystack`: the text before the leftmost
/// match, the text of the match, and the text after it; `None` where nothing
/// matches.
pub uninterp spec fn first_match(re: Regex, haystack: Seq<char>) -> Option<
    (Seq<char>, Seq<char>, Seq<char>),
>;

/// What `Regex::captures` reports for `haystack`: the text of each capture
/// group of the leftmost match, the whole match being group 0 and a group
/// that took no part in the match being `None`; `None` where nothing
/// matches.
pub uninterp spec fn first_captures(re: Regex, haystack: Seq<char>) -> Option<
    Seq<Option<Seq<char>>>,
>;

/// The texts of capture groups.
pub open spec fn group_texts(groups: Seq<Option<&str>>) -> Seq<Option<Seq<char>>> {
    Seq::new(
        groups.len(),
        |i: int|
            match groups[i] {
                Some(text) => Some(text@),
                None => None,
            },
    )
}

/// `Regex::new` compiles a pattern, or refuses it with an error where the
/// pattern is invalid or the compiled expression would be too large. The
/// same pattern always gives the same outcome.
pub assume_specification[ Regex::new ](re: &str) -> (r: Result<Regex, regex::Error>)
    ensures
        match r {
            Ok(built) => compiled(re@) == Some(built),
            Err(_) => compiled(re@) is None,
        },
;

/// Calls `Regex::find` and cuts the haystack at the bounds of the match it
/// reports, which lie on character boundaries. The three pieces make up the
/// haystack.
#[verifier::external_body]
fn split_at_match<'h>(re: &Regex, haystack: &'h str) -> (r: Option<
    (&'h str, &'h str, &'h str),
>)
    ensures
        match r {
            Some((before, hit, after)) => {
                &&& first_match(*re, haystack@) == Some((before@, hit@, after@))
                &&& haystack@ == before@ + hit@ + after@
            },
            None => first_match(*re, haystack@) is None,
        },
{
    let found = re.find(haystack)?;
    Some((&haystack[..found.start()], found.as_str(), &haystack[found.end()..]))
}

/// Calls `Regex::captures` and hands out the text of each group in the
/// order of `Captures::iter`: the whole match first, then the groups by
/// their opening parenthesis.
#[verifier::external_body]
fn capture_groups<'h>(re: &Regex, haystack: &'h str) -> (r: Option<Vec<Option<&'h str>>>)
    ensures
        match r {
            Some(groups) => first_captures(*re, haystack@) == Some(group_texts(groups@)),
            None => first_captures(*re, haystack@) is None,
        },
{
    let found = re.captures(haystack)?;
    Some(found.iter().map(|group| group.map(|m| m.as_str())).collect())
}

/// The pattern of an annotation: the mark `※`, an opening bracket, `＃`, a
/// note of one or more characters, and the first closing bracket after it.
pub const MARKER: &'static str = "※［＃.+?］";

/// The pattern of a locator: a level digit, a plane digit, and a row and a
/// cell of one or two digits each. Level, row and cell are captured. A digit
/// is a decimal digit of any script, so a captured field need not spell a
/// number in ASCII digits.
pub const LOCATOR: &'static str = "第(\\d)水準\\d-(\\d{1,2})-(\\d{1,2})";

/// The pattern of a code point: `U+` and four hexadecimal digits, which are
/// captured.
pub const CODE_POINT: &'static str = "U\\+([0-9A-Fa-f]{4})";

/// Which of the three patterns the engine refused.
#[derive(Debug, Clone, Copy, PartialEq, Eq, Structural)]
pub enum PatternError {
    /// The pattern that finds annotations.
    Marker,
    /// The pattern that reads a locator.
    Locator,
    /// The pattern that reads a code point.
    CodePoint,
}

/// The three compiled patterns.
pub struct AnnotationPatterns {
    marker: Regex,
    locator: Regex,
    code_point: Regex,
}

impl AnnotationPatterns {
    /// The expression that finds annotations.
    pub closed spec fn marker(&self) -> Regex {
        self.marker
    }

    /// The expression that reads a locator.
    pub closed spec fn locator(&self) -> Regex {
        self.locator
    }

    /// The expression that reads a code point.
    pub closed spec fn code_point(&self) -> Regex {
        self.code_point
    }

    /// Whether the three expressions were compiled from [`MARKER`],
    /// [`LOCATOR`] and [`CODE_POINT`].
    pub open spec fn standard(&self) -> bool {
        &&& compiled(MARKER@) == Some(self.marker())
        &&& compiled(LOCATOR@) == Some(self.locator())
        &&& compiled(CODE_POINT@) == Some(self.code_point())
    }

    /// Compiles three patterns of the caller's choice. The error names the
    /// first pattern that the engine refused.
    pub fn with_patterns(marker: &str, locator: &str, code_point: &str) -> (r: Result<
        Self,
        PatternError,
    >)
        ensures
            match r {
                Ok(patterns) => {
                    &&& compiled(marker@) == Some(patterns.marker())
                    &&& compiled(locator@) == Some(patterns.locator())
                    &&& compiled(code_point@) == Some(patterns.code_point())
                },
                Err(PatternError::Marker) => compiled(marker@) is None,
                Err(PatternError::Locator) => compiled(marker@) is Some && compiled(locator@)
                    is None,
                Err(PatternError::CodePoint) => compiled(marker@) is Some && compiled(locator@)
                    is Some && compiled(code_point@) is None,
            },
    {
        let marker = match Regex::new(marker) {
            Ok(re) => re,
            Err(_) => {
                return Err(PatternError::Marker);
            },
        };
        let locator = match Regex::new(locator) {
            Ok(re) => re,
            Err(_) => {
                return Err(PatternError::Locator);
            },
        };
        let code_point = match Regex::new(code_point) {
            Ok(re) => re,
            Err(_) => {
                return Err(PatternError::CodePoint);
            },
        };
        Ok(AnnotationPatterns { marker, locator, code_point })
    }

    /// Compiles [`MARKER`], [`LOCATOR`] and [`CODE_POINT`]. The error names
    /// the first of them that the engine refused.
    pub fn new() -> (r: Result<Self, PatternError>)
        ensures
            match r {
                Ok(patterns) => patterns.standard(),
                Err(PatternError::Marker) => compiled(MARKER@) is None,
                Err(PatternError::Locator) => compiled(MARKER@) is Some && compiled(LOCATOR@)
                    is None,
                Err(PatternError::CodePoint) => compiled(MARKER@) is Some && compiled(LOCATOR@)
                    is Some && compiled(CODE_POINT@) is None,
            },
    {
        AnnotationPatterns::with_patterns(MARKER, LOCATOR, CODE_POINT)
    }

    /// Reads the locator in `span`: the capture groups of the locator
    /// pattern where it matches.
    pub fn locator_groups<'h>(&self, span: &'h str) -> (r: Option<Vec<Option<&'h str>>>)
        ensures
            match r {
                Some(groups) => first_captures(self.locator(), span@) == Some(
                    group_texts(groups@),
                ),
                None => first_captures(self.locator(), span@) is None,
            },
    {
        capture_groups(&self.locator, span)
    }

    /// Reads the code point in `span`: the capture groups of the code-point
    /// pattern where it matches.
    pub fn code_point_groups<'h>(&self, span: &'h str) -> (r: Option<Vec<Option<&'h str>>>)
        ensures
            match r {
                Some(groups) => first_captures(self.code_point(), span@) == Some(
                    group_texts(groups@),
                ),
                None => first_captures(self.code_point(), span@) is None,
            },
    {
        capture_groups(&self.code_point, span)
    }

    /// Looks for the first annotation in `text` and cuts the text there.
    pub fn find_annotation<'h>(&self, text: &'h str) -> (r: Option<(&'h str, &'h str, &'h str)>)
        ensures
            match r {
                Some((before, hit, after)) => {
                    &&& first_match(self.marker(), text@) == Some((before@, hit@, after@))
                    &&& text@ == before@ + hit@ + after@
                },
                None => first_match(self.marker(), text@) is None,
            },
    {
        split_at_match(&self.marker, text)
    }
}

} // verus!
