//! What the library takes on trust from outside code.
//!
//! Nothing in this file is proved. Each item states what the rest of the
//! library relies on from the `regex` crate or from the standard library.

use crate::regexes::group_texts;
use regex::Regex;
use vstd::prelude::*;
use vstd::utf8::{decode_utf8, valid_utf8};

verus! {

/// The compiled expression of the `regex` crate. Nothing inside it is seen here.
#[verifier::external_type_specification]
#[verifier::external_body]
pub struct ExRegex(regex::Regex);

/// The reason why the `regex` crate refused a pattern. Nothing inside it is seen here.
#[verifier::external_type_specification]
#[verifier::external_body]
pub struct ExRegexError(regex::Error);

/// The pattern text that a compiled expression was built from.
pub uninterp spec fn regex_source(re: Regex) -> Seq<char>;

/// The expression was compiled by `Regex::new`, with none of the options
/// that a `RegexBuilder` can set. Only of such an expression does the
/// pattern text alone say what it matches.
pub uninterp spec fn plainly_compiled(re: Regex) -> bool;

/// Whether the expression written as `pattern` matches somewhere in `text`.
pub uninterp spec fn pattern_matches(pattern: Seq<char>, text: Seq<char>) -> bool;

/// The groups that the expression written as `pattern` captures in `text`,
/// from group 0, the whole match, on: `None` where the expression matches
/// nowhere, and for a group that took no part in the match.
pub uninterp spec fn regex_captures(pattern: Seq<char>, text: Seq<char>) -> Option<
    Seq<Option<Seq<char>>>,
>;

/// The text that bytes stand for, with every part that is not valid UTF-8
/// replaced by the replacement character.
pub uninterp spec fn lossy_text(bytes: Seq<u8>) -> Seq<char>;

/// `Regex::new` compiles a pattern with the options at their defaults.
/// Whether it succeeds is left open: the crate refuses patterns with a
/// syntax error and patterns whose compiled form exceeds its size limit. A
/// compiled expression remembers the text it was built from.
pub assume_specification[ Regex::new ](re: &str) -> (r: Result<Regex, regex::Error>)
    ensures
        r matches Ok(compiled) ==> plainly_compiled(compiled) && regex_source(compiled) == re@,
;

/// `Regex::as_str` returns the text that the expression was compiled from.
pub assume_specification[ Regex::as_str ](re: &Regex) -> (s: &str)
    ensures
        s@ == regex_source(*re),
;

/// `Regex::is_match` tells whether the expression matches anywhere in the
/// haystack. For an expression that `Regex::new` compiled, the answer
/// depends on the pattern text and the haystack alone. Nothing is said of
/// an expression that was built with other options.
pub assume_specification[ Regex::is_match ](re: &Regex, haystack: &str) -> (b: bool)
    ensures
        plainly_compiled(*re) ==> b == pattern_matches(regex_source(*re), haystack@),
;

/// `Regex::captures` finds the leftmost match of the expression and the
/// part of the haystack that each group matched. For an expression that
/// `Regex::new` compiled, what it finds depends on the pattern text and the
/// haystack alone. Nothing is said of an expression that was built with
/// other options. The groups are handed out as owned strings, in their
/// order.
#[verifier::external_body]
pub(crate) fn captures(re: &Regex, text: &str) -> (r: Option<Vec<Option<String>>>)
    ensures
        plainly_compiled(*re) ==> match r {
            Some(groups) => regex_captures(regex_source(*re), text@) == Some(group_texts(groups@)),
            None => regex_captures(regex_source(*re), text@) is None,
        },
{
    re.captures(text).map(|caps| caps.iter().map(|m| m.map(|m| m.as_str().to_string())).collect())
}

/// `String::push` appends the character to the end of the string.
pub assume_specification[ String::push ](s: &mut String, ch: char)
    ensures
        final(s)@ == old(s)@.push(ch),
;

/// `String::from_utf8_lossy` turns bytes into text; what is not valid UTF-8
/// becomes the replacement character. The text depends on the bytes alone,
/// and bytes that are valid UTF-8 give the text that they encode.
#[verifier::external_body]
pub(crate) fn decode_lossy(bytes: &Vec<u8>) -> (text: String)
    ensures
        text@ == lossy_text(bytes@),
        valid_utf8(bytes@) ==> text@ == decode_utf8(bytes@),
{
    String::from_utf8_lossy(bytes).into_owned()
}

} // verus!
