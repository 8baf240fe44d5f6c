//! Patterns: compiling a regular expression, testing a path against it and
//! emphasising what it matched.

use crate::error::SearchError;
use colored::Colorize;
use regex::{Captures, Regex};
use vstd::prelude::*;

verus! {

#[verifier::external_type_specification]
#[verifier::external_body]
pub struct ExRegex(Regex);

#[verifier::external_type_specification]
#[verifier::external_body]
pub struct ExRegexError(regex::Error);

/// The expression that a `Regex` was compiled from, which the `Regex` keeps
/// and `Regex::as_str` returns.
pub uninterp spec fn expression_of(engine: Regex) -> Seq<char>;

/// Whether `Regex::new` accepts `pattern`.
pub uninterp spec fn pattern_compiles(pattern: Seq<char>) -> bool;

/// Whether the regular expression `pattern` has a match anywhere in `text`,
/// as `Regex::is_match` decides it.
pub uninterp spec fn pattern_matches(pattern: Seq<char>, text: Seq<char>) -> bool;

/// The inline directive that makes the rest of an expression ignore case.
pub open spec fn ignore_case_directive() -> Seq<char> {
    seq!['(', '?', 'i', ')']
}

/// The expression that is compiled for a user's expression: the expression
/// itself, or the expression behind the ignore-case directive.
pub open spec fn combined(expression: Seq<char>, ignore_case: bool) -> Seq<char> {
    if ignore_case {
        ignore_case_directive() + expression
    } else {
        expression
    }
}

/// Combines a user's expression with the requested case sensitivity.
pub fn combined_pattern(expression: &str, ignore_case: bool) -> (pattern: String)
    ensures
        pattern@ == combined(expression@, ignore_case),
{
    if ignore_case {
        proof {
            reveal_strlit("(?i)");
        }
        assert("(?i)"@ =~= ignore_case_directive());
        let mut pattern = "(?i)".to_owned();
        pattern.append(expression);
        pattern
    } else {
        expression.to_owned()
    }
}

/// A compiled pattern. Its view is the expression it was compiled from.
pub struct Matcher {
    engine: Regex,
}

impl View for Matcher {
    type V = Seq<char>;

    closed spec fn view(&self) -> Seq<char> {
        expression_of(self.engine)
    }
}

/// Calls `Regex::new`. It returns a `Regex` exactly when the expression is
/// one that `regex` accepts, which depends on the expression alone; the
/// `Regex` it returns was compiled from that expression.
#[verifier::external_body]
fn compile_regex(pattern: &str) -> (compiled: Result<Regex, regex::Error>)
    ensures
        compiled is Ok <==> pattern_compiles(pattern@),
        compiled matches Ok(engine) ==> expression_of(engine) == pattern@,
{
    Regex::new(pattern)
}

/// Calls `Regex::is_match`. The answer depends on the expression that the
/// `Regex` was compiled from and on the text alone.
#[verifier::external_body]
fn regex_is_match(engine: &Regex, text: &str) -> (found: bool)
    ensures
        found == pattern_matches(expression_of(*engine), text@),
{
    engine.is_match(text)
}

/// The code that switches bold red on.
pub open spec fn emphasis_on() -> Seq<char> {
    seq!['\u{1b}', '[', '1', ';', '3', '1', 'm']
}

/// The code that switches all styling off.
pub open spec fn emphasis_off() -> Seq<char> {
    seq!['\u{1b}', '[', '0', 'm']
}

/// `form` is a form in which `text` may come back from emphasis: the text
/// as it is, where the environment asks for no styling, or the text between
/// the code that switches bold red on and the code that switches styling
/// off. Nothing is said of a text that holds an escape character itself.
pub open spec fn emphasised(text: Seq<char>, form: Seq<char>) -> bool {
    ||| text.contains('\u{1b}')
    ||| form == text
    ||| form == emphasis_on() + text + emphasis_off()
}

/// The matches of `pattern` in `text` as `regex` walks them, leftmost first
/// and without overlap: for each match the text that lies between the match
/// before it (or the start of the text) and the match, and the text of the
/// match; and with them the text that follows the last match.
pub uninterp spec fn matches_in(pattern: Seq<char>, text: Seq<char>) -> (
    Seq<(Seq<char>, Seq<char>)>,
    Seq<char>,
);

/// The text that is put together from the matches `found`: before each
/// match the text that lay before it, in place of each match the form that
/// `forms` gives for it, and at the end the text that followed the last
/// match.
pub open spec fn woven(
    found: (Seq<(Seq<char>, Seq<char>)>, Seq<char>),
    forms: Seq<Seq<char>>,
) -> Seq<char> {
    Seq::new(found.0.len(), |i: int| found.0[i].0 + forms[i]).flatten() + found.1
}

/// `shown` is the text of the matches `found` with every match emphasised:
/// what lies between the matches is kept as it is, and in place of each
/// match stands a form in which its text may come back from emphasis.
pub open spec fn highlighted(
    found: (Seq<(Seq<char>, Seq<char>)>, Seq<char>),
    shown: Seq<char>,
) -> bool {
    exists|forms: Seq<Seq<char>>|
        {
            &&& forms.len() == found.0.len()
            &&& forall|i: int|
                0 <= i < forms.len() ==> emphasised(found.0[i].1, #[trigger] forms[i])
            &&& shown == #[trigger] woven(found, forms)
        }
}

/// Calls `red`, `bold` and `Display` of `colored`. Where the environment
/// asks for no styling the text comes back as it is; otherwise it comes
/// back between the code for bold red and the code that ends all styling.
/// `colored` writes more codes into a text that holds such codes itself, so
/// nothing is stated of a text with an escape character.
#[verifier::external_body]
fn emphasize(text: &str) -> (form: String)
    ensures
        emphasised(text@, form@),
{
    text.red().bold().to_string()
}

/// Calls `Regex::replace_all` with a replacement that hands the text of
/// each match to `emphasize`. Without a match `regex` returns the text as it
/// is. Otherwise it copies what lies between the matches and puts in place
/// of each match what the replacement returned for it.
#[verifier::external_body]
fn replace_matches(engine: &Regex, text: &str) -> (shown: String)
    ensures
        !pattern_matches(expression_of(*engine), text@) ==> shown@ == text@,
        highlighted(matches_in(expression_of(*engine), text@), shown@),
{
    engine.replace_all(text, |found: &Captures| emphasize(&found[0])).into_owned()
}

impl Matcher {
    /// Compiles `pattern`.
    pub fn compile(pattern: &str) -> (compiled: Result<Matcher, SearchError>)
        ensures
            compiled is Ok <==> pattern_compiles(pattern@),
            compiled matches Ok(matcher) ==> matcher@ == pattern@,
            compiled matches Err(e) ==> e == SearchError::InvalidPattern,
    {
        match compile_regex(pattern) {
            Ok(engine) => Ok(Matcher { engine }),
            Err(_) => Err(SearchError::InvalidPattern),
        }
    }

    /// Whether the pattern has a match anywhere in `text`.
    pub fn is_match(&self, text: &str) -> (found: bool)
        ensures
            found == pattern_matches(self@, text@),
    {
        regex_is_match(&self.engine, text)
    }

    /// `text` with every match of the pattern emphasised: what lies between
    /// the matches is kept as it is, and each match either stays as it is,
    /// where the environment asks for no styling, or stands between the
    /// codes for bold red. A text without a match comes back as it is.
    pub(crate) fn highlight(&self, text: &str) -> (shown: String)
        ensures
            !pattern_matches(self@, text@) ==> shown@ == text@,
            highlighted(matches_in(self@, text@), shown@),
    {
        replace_matches(&self.engine, text)
    }
}

} // verus!
