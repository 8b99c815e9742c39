//! Regular expressions, by the `regex` crate.
//!
//! What a pattern matches is the crate's affair: each function here names the result of one
//! call as a function of the pattern and the text.

use crate::text::{has_prefix, is_digit, occurs_at, opt_view};
use vstd::prelude::*;

verus! {

/// The text before the match and the text of the first group, as sequences of characters.
pub open spec fn match_view(found: Option<(String, String)>) -> Option<(Seq<char>, Seq<char>)> {
    match found {
        Some((before, group)) => Some((before@, group@)),
        None => None,
    }
}

/// Characters that have a meaning in a pattern.
pub open spec fn is_meta(c: char) -> bool {
    ||| c == '\\' || c == '.' || c == '+' || c == '*' || c == '?' || c == '|' || c == '^'
    ||| c == '$' || c == '(' || c == ')' || c == '[' || c == ']' || c == '{' || c == '}'
    ||| c == '#' || c == '&' || c == '-' || c == '~'
}

/// `text` with a backslash before every character that has a meaning in a pattern.
pub open spec fn regex_escaped(text: Seq<char>) -> Seq<char>
    decreases text.len(),
{
    if text.len() == 0 {
        text
    } else {
        let rest = regex_escaped(text.drop_last());
        if is_meta(text.last()) {
            rest.push('\\').push(text.last())
        } else {
            rest.push(text.last())
        }
    }
}

/// `regex::escape`: a pattern that matches `text` literally, with a backslash before every
/// character that has a meaning in a pattern.
#[verifier::external_body]
pub(crate) fn escape(text: &str) -> (r: String)
    ensures
        r@ == regex_escaped(text@),
{
    regex::escape(text)
}

/// What is wrong with `pattern`; none where it is a valid pattern.
pub uninterp spec fn regex_fault(pattern: Seq<char>) -> Option<Seq<char>>;

/// The pattern for a literal text that is followed by digits, which are its first group.
pub open spec fn counted(literal: Seq<char>) -> Seq<char> {
    regex_escaped(literal) + "(\\d+)"@
}

/// Characters in a literal text whose pattern always compiles.
pub const LITERAL_LIMIT: usize = 1024;

/// `pattern` is one for a short literal text followed by digits.
pub open spec fn is_short_counted(pattern: Seq<char>) -> bool {
    exists|literal: Seq<char>| #[trigger]
        counted(literal) == pattern && literal.len() <= LITERAL_LIMIT
}

/// `Regex::new`: why `pattern` does not compile, in the words of the crate's error.
///
/// The pattern for a literal text followed by digits has no syntax to object to, and what the
/// crate makes of it grows by one state of 32 bytes for each byte of the literal. For a short
/// one that stays far below the ten megabytes at which the crate gives up.
#[verifier::external_body]
pub(crate) fn fault(pattern: &str) -> (r: Option<String>)
    ensures
        opt_view(r) == regex_fault(pattern@),
        is_short_counted(pattern@) ==> r is None,
{
    regex::Regex::new(pattern).err().map(|e| e.to_string())
}

/// The last of the successive matches of `pattern` in `text`: the text before it, and its
/// first group. None when the pattern is not valid, never matches, or has no such group there.
pub uninterp spec fn last_regex_match(pattern: Seq<char>, text: Seq<char>) -> Option<
    (Seq<char>, Seq<char>),
>;

/// `literal` begins at `p`, and a digit follows it.
pub open spec fn counted_at(text: Seq<char>, literal: Seq<char>, p: int) -> bool {
    &&& occurs_at(text, literal, p)
    &&& p + literal.len() < text.len()
    &&& is_digit(text[p + literal.len()])
}

/// `digits` follow `literal` at `p`, and no more digits follow them. Digits of other scripts
/// count as digits too.
pub open spec fn counts(text: Seq<char>, literal: Seq<char>, p: int, digits: Seq<char>) -> bool {
    let end = p + literal.len() + digits.len();
    &&& occurs_at(text, literal, p)
    &&& occurs_at(text, digits, p + literal.len())
    &&& digits.len() > 0
    &&& forall|i: int|
        0 <= i < digits.len() && #[trigger] digits[i] < '\u{80}' ==> is_digit(digits[i])
    &&& end < text.len() ==> !is_digit(text[end])
}

/// Where `pattern` is one for a literal text followed by digits, `found` is its last match: what
/// stands before it, and the digits.
pub open spec fn is_last_counted(
    pattern: Seq<char>,
    text: Seq<char>,
    found: Option<(Seq<char>, Seq<char>)>,
) -> bool {
    forall|literal: Seq<char>|
        #[trigger] counted(literal) == pattern ==> match found {
            Some((before, digits)) => {
                &&& counts(text, literal, before.len() as int, digits)
                &&& forall|p: int|
                    before.len() + literal.len() + digits.len() <= p ==> !#[trigger] counted_at(
                        text,
                        literal,
                        p,
                    )
            },
            None => {
                ||| regex_fault(pattern) is Some && literal.len() > LITERAL_LIMIT
                ||| forall|p: int| !#[trigger] counted_at(text, literal, p)
            },
        }
}

/// Where `pattern` is one for a literal text followed by digits, `found` are the digits of its
/// first match.
pub open spec fn is_first_counted(
    pattern: Seq<char>,
    text: Seq<char>,
    found: Option<Seq<char>>,
) -> bool {
    forall|literal: Seq<char>|
        #[trigger] counted(literal) == pattern ==> match found {
            Some(digits) => exists|p: int| #[trigger]
                counts(text, literal, p, digits) && forall|q: int|
                    q < p ==> !#[trigger] counted_at(text, literal, q),
            None => {
                ||| regex_fault(pattern) is Some && literal.len() > LITERAL_LIMIT
                ||| forall|p: int| !#[trigger] counted_at(text, literal, p)
            },
        }
}

/// `Regex::captures_iter`, its last item. What stands before a match is a start of the text.
///
/// Of a literal text followed by digits: there is a match where the pattern compiles, as that
/// of a short one does, and the literal stands somewhere with a digit after it; a match takes
/// in all the digits, and behind the last match there is no other.
#[verifier::external_body]
pub(crate) fn last_match(pattern: &str, text: &str) -> (r: Option<(String, String)>)
    ensures
        match_view(r) == last_regex_match(pattern@, text@),
        regex_fault(pattern@) is Some ==> r is None,
        r matches Some((before, _)) ==> has_prefix(text@, before@),
        is_last_counted(pattern@, text@, match_view(r)),
{
    let found = regex::Regex::new(pattern).ok()?.captures_iter(text).last()?;
    let before = &text[..found.get(0)?.start()];
    Some((before.to_string(), found.get(1)?.as_str().to_string()))
}

/// The first group of the first match of `pattern` in `text`. None when the pattern is not
/// valid, does not match, or has no such group there.
pub uninterp spec fn first_regex_group(pattern: Seq<char>, text: Seq<char>) -> Option<Seq<char>>;

/// `Regex::captures`, its first group.
///
/// Of a literal text followed by digits: there is a match where the pattern compiles, as that
/// of a short one does, and the literal stands somewhere with a digit after it; a match takes
/// in all the digits, and before the first match there is no other.
#[verifier::external_body]
pub(crate) fn first_group(pattern: &str, text: &str) -> (r: Option<String>)
    ensures
        opt_view(r) == first_regex_group(pattern@, text@),
        is_first_counted(pattern@, text@, opt_view(r)),
{
    let found = regex::Regex::new(pattern).ok()?.captures(text)?;
    Some(found.get(1)?.as_str().to_string())
}

/// `pattern` is valid and matches somewhere in `text`.
pub uninterp spec fn regex_matches(pattern: Seq<char>, text: Seq<char>) -> bool;

/// `Regex::is_match`; a pattern that does not compile matches nothing.
#[verifier::external_body]
pub(crate) fn is_match(pattern: &str, text: &str) -> (r: bool)
    ensures
        r == regex_matches(pattern@, text@),
{
    regex::Regex::new(pattern).map_or(false, |re| re.is_match(text))
}

} // verus!
