//! START/DONE markers around a tracked command, and the wrapper that carries its exit code.
//!
//! The markers bracket output for presentation only. The exit status travels on a private
//! side channel: a paste buffer and a `wait-for` signal, both named by the command's secret.

use crate::patterns::{
    counted, counted_at, counts, escape, fault, first_group, first_regex_group, last_match,
    last_regex_match, match_view, regex_fault, LITERAL_LIMIT,
};
use crate::shell::{shell_single_quote, single_quoted};
use crate::text::{
    all_digits, contains, contains_text, find_last, from_range, has_prefix, i32_number, is_digit,
    occurs_at, opt_str_view, opt_view, parse_i32, same, to_chars, trim, trimmed, trimmed_around,
};
use crate::tmux::{exit_code_buffer_name, shell_tmux_prefix, tmux_prefix, wait_signal_name};
use crate::types::ShellType;
use vstd::prelude::*;

verus! {

/// Prefix for the start marker, followed by command id.
pub const START_MARKER_PREFIX: &'static str = "TMUX_MCP_START_";

/// Prefix for the end marker, followed by command id and exit code.
pub const END_MARKER_PREFIX: &'static str = "TMUX_MCP_DONE_";

/// START marker of a command.
pub open spec fn start_marker(command_id: Seq<char>) -> Seq<char> {
    "TMUX_MCP_START_"@ + command_id
}

/// DONE marker of a command, up to the exit code.
pub open spec fn end_prefix(command_id: Seq<char>) -> Seq<char> {
    "TMUX_MCP_DONE_"@ + command_id + "_"@
}

/// START marker text echoed into pane scrollback for human/debug bracketing.
///
/// Not completion authority: the exit status comes only from the private side channel.
pub fn get_start_marker(command_id: &str) -> (r: String)
    ensures
        r@ == start_marker(command_id@),
{
    "TMUX_MCP_START_".to_owned().concat(command_id)
}

/// DONE marker text up to the exit code.
pub fn end_marker_prefix(command_id: &str) -> (r: String)
    ensures
        r@ == end_prefix(command_id@),
{
    "TMUX_MCP_DONE_".to_owned().concat(command_id).concat("_")
}

/// DONE marker body (prefix + shell exit-status expansion) for debug echo only.
pub fn get_end_marker(shell: &ShellType, command_id: &str) -> (r: String)
    ensures
        r@ == end_prefix(command_id@) + (if *shell == ShellType::Fish {
            "$status"@
        } else {
            "$?"@
        }),
{
    let prefix = end_marker_prefix(command_id);
    match shell {
        ShellType::Fish => prefix.concat("$status"),
        ShellType::Bash | ShellType::Zsh | ShellType::Unknown => prefix.concat("$?"),
    }
}

/// What a bounded capture shows of a command's output.
#[derive(Debug, Clone, PartialEq, Eq)]
pub enum BracketedOutput {
    /// Both marker boundaries were present in the bounded capture.
    Complete(String),
    /// START was present but DONE was not yet visible.
    Open(String),
    /// The bounded capture did not include START, so output cannot be isolated safely.
    MissingStart,
}

/// A [`BracketedOutput`] with its text as a sequence of characters.
#[verifier::ext_equal]
pub enum Bracketed {
    Complete(Seq<char>),
    Open(Seq<char>),
    MissingStart,
}

impl View for BracketedOutput {
    type V = Bracketed;

    open spec fn view(&self) -> Bracketed {
        match self {
            BracketedOutput::Complete(output) => Bracketed::Complete(output@),
            BracketedOutput::Open(output) => Bracketed::Open(output@),
            BracketedOutput::MissingStart => Bracketed::MissingStart,
        }
    }
}

/// `p` is where the last occurrence of `needle` in `hay` begins.
pub open spec fn is_last_occurrence(hay: Seq<char>, needle: Seq<char>, p: int) -> bool {
    &&& occurs_at(hay, needle, p)
    &&& forall|j: int| p < j ==> !occurs_at(hay, needle, j)
}

/// The text after the last occurrence of `needle` in `hay`, if there is one.
pub open spec fn after_last(hay: Seq<char>, needle: Seq<char>) -> Option<Seq<char>> {
    if contains_text(hay, needle) {
        let p = choose|p: int| is_last_occurrence(hay, needle, p);
        Some(hay.skip(p + needle.len()))
    } else {
        None
    }
}

/// The text after the last occurrence of `needle` in `text`, if there is one.
fn text_after_last(text: &str, needle: &str) -> (r: Option<String>)
    ensures
        opt_view(r) == after_last(text@, needle@),
{
    let hay = to_chars(text);
    let sought = to_chars(needle);
    match find_last(&hay, &sought) {
        Some(p) => {
            let end: usize = hay.len();
            let rest = from_range(&hay, p + sought.len(), end);
            proof {
                assert(occurs_at(text@, needle@, p as int));
                assert(is_last_occurrence(text@, needle@, p as int));
                let q = choose|q: int| is_last_occurrence(text@, needle@, q);
                assert(p == q);
                assert(rest@ =~= text@.skip(p + needle@.len()));
            }
            Some(rest)
        },
        None => None,
    }
}

/// The pattern that matches a DONE marker with its exit code.
pub open spec fn done_pattern(command_id: Seq<char>) -> Seq<char> {
    counted(end_prefix(command_id))
}

/// The pattern that matches a DONE marker with its exit code.
fn done_regex(command_id: &str) -> (r: String)
    ensures
        r@ == done_pattern(command_id@),
{
    let prefix = end_marker_prefix(command_id);
    escape(prefix.as_str()).concat("(\\d+)")
}

/// Output between the markers: `after_start` is what follows the last START, `before_done`
/// the part of it before the last DONE.
pub open spec fn bracket(
    after_start: Option<Seq<char>>,
    before_done: Option<Seq<char>>,
) -> Bracketed {
    match (after_start, before_done) {
        (None, _) => Bracketed::MissingStart,
        (Some(_), Some(output)) => Bracketed::Complete(trimmed(output)),
        (Some(output), None) => Bracketed::Open(trimmed(output)),
    }
}

/// Output between the markers, given the text after START and the part of it before DONE.
pub fn bracket_output(after_start: Option<&str>, before_done: Option<&str>) -> (r: BracketedOutput)
    ensures
        r@ == bracket(opt_str_view(after_start), opt_str_view(before_done)),
{
    match (after_start, before_done) {
        (None, _) => BracketedOutput::MissingStart,
        (Some(_), Some(output)) => BracketedOutput::Complete(trim(output)),
        (Some(output), None) => BracketedOutput::Open(trim(output)),
    }
}

/// The text before the last DONE marker of a command, in the text that follows its START.
pub open spec fn before_last_done(after_start: Option<Seq<char>>, command_id: Seq<char>) -> Option<
    Seq<char>,
> {
    match after_start {
        Some(text) => match last_regex_match(done_pattern(command_id), text) {
            Some((before, _)) => Some(before),
            None => None,
        },
        None => None,
    }
}

/// What a capture shows of the output of a command. Nothing can be isolated with an id so long
/// that its DONE marker cannot be searched for.
pub open spec fn bracketed(captured: Seq<char>, command_id: Seq<char>) -> Bracketed {
    let after_start = after_last(captured, start_marker(command_id));
    if regex_fault(done_pattern(command_id)) is Some {
        Bracketed::MissingStart
    } else {
        bracket(after_start, before_last_done(after_start, command_id))
    }
}

/// Characters in a command id whose DONE marker can always be searched for.
pub const SHORT_ID: usize = 1000;

/// The DONE marker of a command can be searched for.
pub open spec fn searchable(command_id: Seq<char>) -> bool {
    command_id.len() <= SHORT_ID || regex_fault(done_pattern(command_id)) is None
}

/// `text` is the output, a DONE marker with an exit code, and what follows; there is no other
/// DONE marker behind this one or across its beginning.
pub open spec fn ends(
    text: Seq<char>,
    command_id: Seq<char>,
    output: Seq<char>,
    digits: Seq<char>,
    rest: Seq<char>,
) -> bool {
    let prefix = end_prefix(command_id);
    &&& text == output + prefix + digits + rest
    &&& digits.len() > 0 && all_digits(digits)
    &&& rest.len() > 0 ==> rest[0] < '\u{80}' && !is_digit(rest[0])
    &&& forall|p: int|
        output.len() - prefix.len() < p && p != output.len() ==> !occurs_at(text, prefix, p)
}

/// Where the last DONE marker of a text that [`ends`] is found.
proof fn lemma_ends(
    text: Seq<char>,
    command_id: Seq<char>,
    output: Seq<char>,
    digits: Seq<char>,
    rest: Seq<char>,
    before: Seq<char>,
    group: Seq<char>,
)
    requires
        ends(text, command_id, output, digits, rest),
        has_prefix(text, before),
        counts(text, end_prefix(command_id), before.len() as int, group),
        output.len() < before.len() + end_prefix(command_id).len() + group.len(),
    ensures
        before == output,
        group == digits,
{
    let prefix = end_prefix(command_id);
    let p = output.len() as int;
    let q = before.len() as int;
    reveal_strlit("TMUX_MCP_DONE_");
    assert(prefix[0] == 'T');
    assert(text[p] == prefix[0]);
    if q != p {
        assert(q <= p - prefix.len());
        assert(group[p - q - prefix.len()] == text.subrange(
            q + prefix.len(),
            q + prefix.len() + group.len(),
        )[p - q - prefix.len()]);
        assert(false);
    }
    assert(before =~= output) by {
        assert(before == text.subrange(0, q));
        assert(text.subrange(0, p) =~= output);
    }
    let d = p + prefix.len();
    assert(group == text.subrange(d, d + group.len()));
    if group.len() < digits.len() {
        assert(text[d + group.len()] == digits[group.len() as int]);
        assert(false);
    }
    if group.len() > digits.len() {
        assert(group[digits.len() as int] == text[d + digits.len()]);
        assert(text[d + digits.len()] == rest[0]);
        assert(false);
    }
    assert(text.subrange(d, d + digits.len()) =~= digits);
}

/// The DONE marker of a text that [`ends`] stands after the output.
proof fn lemma_end_stands(
    text: Seq<char>,
    command_id: Seq<char>,
    output: Seq<char>,
    digits: Seq<char>,
    rest: Seq<char>,
)
    requires
        ends(text, command_id, output, digits, rest),
    ensures
        counted_at(text, end_prefix(command_id), output.len() as int),
{
    let prefix = end_prefix(command_id);
    let p = output.len() as int;
    assert(text.subrange(p, p + prefix.len()) =~= prefix);
    assert(text[p + prefix.len()] == digits[0]);
}

/// A text without a line break stands on one side of a line break or on the other.
proof fn lemma_one_side(a: Seq<char>, b: Seq<char>, needle: Seq<char>, p: int)
    requires
        needle.len() > 0,
        !needle.contains('\n'),
        occurs_at(a + seq!['\n'] + b, needle, p),
    ensures
        occurs_at(a, needle, p) || occurs_at(b, needle, p - a.len() - 1),
{
    let all = a + seq!['\n'] + b;
    let n = a.len() as int;
    if p + needle.len() <= n {
        assert(a.subrange(p, p + needle.len()) =~= all.subrange(p, p + needle.len()));
    } else if n < p {
        assert(b.subrange(p - n - 1, p - n - 1 + needle.len()) =~= all.subrange(
            p,
            p + needle.len(),
        ));
    } else {
        assert(all[n] == '\n');
        assert(needle[n - p] == all.subrange(p, p + needle.len())[n - p]);
        assert(needle.contains('\n'));
    }
}

/// What a command shows: something before, the START marker, the output, the DONE marker with
/// the exit code, each on a line of its own, and something behind that holds neither marker.
pub open spec fn echoed(
    captured: Seq<char>,
    command_id: Seq<char>,
    noise: Seq<char>,
    output: Seq<char>,
    digits: Seq<char>,
    rest: Seq<char>,
) -> bool {
    &&& captured == noise + start_marker(command_id) + seq!['\n'] + output + seq!['\n']
        + end_prefix(command_id) + digits + seq!['\n'] + rest
    &&& !command_id.contains('_') && !command_id.contains('\n')
    &&& digits.len() > 0 && all_digits(digits)
    &&& !contains_text(output, start_marker(command_id))
    &&& !contains_text(rest, start_marker(command_id))
    &&& !contains_text(rest, end_prefix(command_id))
}

/// The markers hold no line break.
proof fn lemma_markers_are_lines(command_id: Seq<char>)
    requires
        !command_id.contains('\n'),
    ensures
        !start_marker(command_id).contains('\n'),
        !end_prefix(command_id).contains('\n'),
{
    reveal_strlit("TMUX_MCP_START_");
    reveal_strlit("TMUX_MCP_DONE_");
    reveal_strlit("_");
    let start = start_marker(command_id);
    let end = end_prefix(command_id);
    assert forall|i: int| 0 <= i < start.len() implies start[i] != '\n' by {
        if i >= 15 {
            assert(start[i] == command_id[i - 15]);
            assert(command_id.contains(command_id[i - 15]));
        }
    }
    assert forall|i: int| 0 <= i < end.len() implies end[i] != '\n' by {
        if 14 <= i < 14 + command_id.len() {
            assert(end[i] == command_id[i - 14]);
            assert(command_id.contains(command_id[i - 14]));
        }
    }
}

/// No START marker stands in the DONE marker of the same command.
proof fn lemma_no_start_in_done(command_id: Seq<char>, digits: Seq<char>, p: int)
    requires
        !command_id.contains('_'),
        all_digits(digits),
    ensures
        !occurs_at(end_prefix(command_id) + digits, start_marker(command_id), p),
{
    reveal_strlit("TMUX_MCP_START_");
    reveal_strlit("TMUX_MCP_DONE_");
    reveal_strlit("_");
    let start = start_marker(command_id);
    let done = end_prefix(command_id) + digits;
    let n = command_id.len() as int;
    if occurs_at(done, start, p) {
        let part = done.subrange(p, p + start.len());
        assert(part[4] == done[p + 4] && part[8] == done[p + 8] && part[9] == done[p + 9]
            && part[14] == done[p + 14]);
        assert forall|i: int| 0 <= i < done.len() && #[trigger] done[i] == '_' implies i == 4 || i
            == 8 || i == 13 || i == 14 + n by {
            if 14 <= i < 14 + n {
                assert(done[i] == command_id[i - 14]);
                assert(command_id.contains(command_id[i - 14]));
            } else if i > 14 + n {
                assert(done[i] == digits[i - 15 - n]);
            }
        }
        assert(done[p + 4] == '_' && done[p + 8] == '_' && done[p + 14] == '_');
        assert(done[9] == 'D');
    }
}

/// Where the markers of an [`echoed`] capture are found.
proof fn lemma_echoed(
    captured: Seq<char>,
    command_id: Seq<char>,
    noise: Seq<char>,
    output: Seq<char>,
    digits: Seq<char>,
    rest: Seq<char>,
)
    requires
        echoed(captured, command_id, noise, output, digits, rest),
    ensures
        after_last(captured, start_marker(command_id)) matches Some(shown) && ends(
            shown,
            command_id,
            seq!['\n'] + output + seq!['\n'],
            digits,
            seq!['\n'] + rest,
        ),
        trimmed(seq!['\n'] + output + seq!['\n']) == trimmed(output),
{
    let start = start_marker(command_id);
    let prefix = end_prefix(command_id);
    let line = seq!['\n'];
    let done = prefix + digits;
    let behind = done + line + rest;
    let below = output + line + behind;
    let shown = line + below;
    let framed = line + output + line;
    reveal_strlit("TMUX_MCP_START_");
    reveal_strlit("TMUX_MCP_DONE_");
    reveal_strlit("_");
    lemma_markers_are_lines(command_id);
    assert(captured =~= noise + start + line + below);
    let at = noise.len() as int;
    assert(captured.subrange(at, at + start.len()) =~= start);
    assert forall|j: int| at < j implies !occurs_at(captured, start, j) by {
        if occurs_at(captured, start, j) {
            lemma_one_side(noise + start, below, start, j);
            let k = j - (noise + start).len() - 1;
            lemma_one_side(output, behind, start, k);
            let m = k - output.len() - 1;
            if occurs_at(behind, start, m) {
                lemma_one_side(done, rest, start, m);
                lemma_no_start_in_done(command_id, digits, m);
            }
        }
    }
    assert(is_last_occurrence(captured, start, at));
    assert(contains_text(captured, start));
    let q = choose|q: int| is_last_occurrence(captured, start, q);
    assert(q == at);
    assert(captured.skip(at + start.len()) =~= shown);
    assert(shown =~= framed + prefix + digits + (line + rest));
    assert(shown =~= (line + output) + line + behind);
    assert forall|p: int| framed.len() - prefix.len() < p && p != framed.len() implies !occurs_at(
        shown,
        prefix,
        p,
    ) by {
        if occurs_at(shown, prefix, p) {
            lemma_one_side(line + output, behind, prefix, p);
            let m = p - (line + output).len() - 1;
            assert(occurs_at(behind, prefix, m));
            lemma_one_side(done, rest, prefix, m);
            assert(occurs_at(done, prefix, m));
            let part = done.subrange(m, m + prefix.len());
            assert(part.last() == done[m + prefix.len() - 1]);
            assert(done[m + prefix.len() - 1] == digits[m - 1]);
            assert(prefix.last() == '_');
        }
    }
    trimmed_around('\n', output, '\n');
}

/// The DONE prefix of a short id is short.
proof fn lemma_short_id(command_id: Seq<char>)
    ensures
        command_id.len() <= SHORT_ID ==> end_prefix(command_id).len() <= LITERAL_LIMIT,
{
    reveal_strlit("TMUX_MCP_DONE_");
    reveal_strlit("_");
}

/// The last match of the DONE pattern in a text: where the text [`ends`], the output stands
/// before it and the exit code is its group; where no DONE prefix stands in it there is none.
fn last_done(text: &str, command_id: &str) -> (r: Option<(String, String)>)
    ensures
        match_view(r) == last_regex_match(done_pattern(command_id@), text@),
        regex_fault(done_pattern(command_id@)) is Some ==> r is None,
        r matches Some((before, _)) ==> has_prefix(text@, before@),
        !contains_text(text@, end_prefix(command_id@)) ==> r is None,
        forall|output: Seq<char>, digits: Seq<char>, rest: Seq<char>|
            #[trigger] ends(text@, command_id@, output, digits, rest) && searchable(command_id@)
                ==> match_view(r) == Some((output, digits)),
{
    let pattern = done_regex(command_id);
    let found = last_match(pattern.as_str(), text);
    proof {
        let literal = end_prefix(command_id@);
        assert(counted(literal) == pattern@);
        lemma_short_id(command_id@);
        if found is Some {
            assert(counts(text@, literal, (found->0).0@.len() as int, (found->0).1@));
            assert(occurs_at(text@, literal, (found->0).0@.len() as int));
        }
        assert forall|output: Seq<char>, digits: Seq<char>, rest: Seq<char>|
            #[trigger] ends(text@, command_id@, output, digits, rest) && searchable(
                command_id@,
            ) implies match_view(found) == Some((output, digits)) by {
            lemma_end_stands(text@, command_id@, output, digits, rest);
            assert(counted_at(text@, literal, output.len() as int));
            lemma_ends(
                text@,
                command_id@,
                output,
                digits,
                rest,
                (found->0).0@,
                (found->0).1@,
            );
        }
    }
    found
}

/// Extract output between the markers for presentation only, never command completion.
///
/// The text of a complete or open result comes from what the capture shows after the last
/// START marker; where no START marker is visible nothing is extracted. What stands between
/// that marker and the last DONE marker is the output; without a DONE marker everything is. What
/// was written between the markers of a short id is read back, whatever stands before them.
pub fn extract_output_between_markers(captured: &str, command_id: &str) -> (r: BracketedOutput)
    ensures
        r@ == bracketed(captured@, command_id@),
        !contains_text(captured@, start_marker(command_id@)) ==> r is MissingStart,
        searchable(command_id@) ==> {
            &&& r is MissingStart <==> !contains_text(captured@, start_marker(command_id@))
            &&& forall|shown: Seq<char>, output: Seq<char>, digits: Seq<char>, rest: Seq<char>|
                after_last(captured@, start_marker(command_id@)) == Some(shown)
                    && #[trigger] ends(shown, command_id@, output, digits, rest) ==> r@
                    == Bracketed::Complete(trimmed(output))
            &&& forall|shown: Seq<char>|
                after_last(captured@, start_marker(command_id@)) == Some(shown)
                    && !#[trigger] contains_text(shown, end_prefix(command_id@)) ==> r@
                    == Bracketed::Open(trimmed(shown))
            &&& forall|
                noise: Seq<char>,
                output: Seq<char>,
                digits: Seq<char>,
                rest: Seq<char>,
            | #[trigger]
                echoed(captured@, command_id@, noise, output, digits, rest) ==> r@
                    == Bracketed::Complete(trimmed(output))
        },
        r matches BracketedOutput::Open(output) ==> Some(output@) == (match after_last(
            captured@,
            start_marker(command_id@),
        ) {
            Some(text) => Some(trimmed(text)),
            None => None,
        }),
        r matches BracketedOutput::Complete(output) ==> exists|before: Seq<char>|
            output@ == trimmed(before) && #[trigger] has_prefix(
                after_last(captured@, start_marker(command_id@))->0,
                before,
            ),
{
    let marker = get_start_marker(command_id);
    proof {
        assert forall|noise: Seq<char>, output: Seq<char>, digits: Seq<char>, rest: Seq<char>|
            #[trigger] echoed(captured@, command_id@, noise, output, digits, rest) implies {
            let framed = seq!['\n'] + output + seq!['\n'];
            &&& after_last(captured@, marker@) is Some
            &&& ends(
                after_last(captured@, marker@)->0,
                command_id@,
                framed,
                digits,
                seq!['\n'] + rest,
            )
            &&& trimmed(framed) == trimmed(output)
        } by {
            lemma_echoed(captured@, command_id@, noise, output, digits, rest);
        }
    }
    match text_after_last(captured, marker.as_str()) {
        None => BracketedOutput::MissingStart,
        Some(after_start) => {
            let pattern = done_regex(command_id);
            proof {
                lemma_short_id(command_id@);
                assert(counted(end_prefix(command_id@)) == pattern@);
            }
            if fault(pattern.as_str()).is_some() {
                return BracketedOutput::MissingStart;
            }
            let found = last_done(after_start.as_str(), command_id);
            match found {
                Some((before, _)) => bracket_output(
                    Some(after_start.as_str()),
                    Some(before.as_str()),
                ),
                None => bracket_output(Some(after_start.as_str()), None),
            }
        },
    }
}

/// What a capture shows after the last START marker of a command; all of it where there is
/// none.
pub open spec fn shown_after_start(captured: Seq<char>, command_id: Seq<char>) -> Seq<char> {
    match after_last(captured, start_marker(command_id)) {
        Some(text) => text,
        None => captured,
    }
}

/// Output and exit code that the markers in a capture show, for inspection only.
///
/// Without a START marker the whole capture counts as output.
pub open spec fn parsed_output(captured: Seq<char>, command_id: Seq<char>) -> Option<
    (Seq<char>, i32),
> {
    parsed_match(
        last_regex_match(done_pattern(command_id), shown_after_start(captured, command_id)),
    )
}

/// Output and exit code of a DONE marker: what stands before it, and its digits.
pub open spec fn parsed_match(found: Option<(Seq<char>, Seq<char>)>) -> Option<(Seq<char>, i32)> {
    match found {
        Some((before, digits)) => match i32_number(digits) {
            Some(code) => Some((trimmed(before), code)),
            None => None,
        },
        None => None,
    }
}

/// Output and exit code of a DONE marker: what stands before it, and its digits.
pub fn parse_marker_match(found: Option<(String, String)>) -> (r: Option<(String, i32)>)
    ensures
        (match r {
            Some((output, code)) => Some((output@, code)),
            None => None,
        }) == parsed_match(match_view(found)),
{
    match found {
        Some((before, digits)) => match parse_i32(digits.as_str()) {
            Some(code) => Some((trim(before.as_str()), code)),
            None => None,
        },
        None => None,
    }
}

/// Parse the markers of a command for output bracketing only (not completion).
///
/// Where the last DONE marker carries a number, it is the exit code, and what stands before the
/// marker is the output.
pub fn parse_command_output(captured: &str, command_id: &str) -> (r: Option<(String, i32)>)
    ensures
        (match r {
            Some((output, code)) => Some((output@, code)),
            None => None,
        }) == parsed_output(captured@, command_id@),
        forall|output: Seq<char>, digits: Seq<char>, rest: Seq<char>|
            #[trigger] ends(
                shown_after_start(captured@, command_id@),
                command_id@,
                output,
                digits,
                rest,
            ) && searchable(command_id@) ==> (match r {
                Some((output, code)) => Some((output@, code)),
                None => None,
            }) == parsed_match(Some((output, digits))),
        forall|noise: Seq<char>, output: Seq<char>, digits: Seq<char>, rest: Seq<char>|
            #[trigger] echoed(captured@, command_id@, noise, output, digits, rest) && searchable(
                command_id@,
            ) ==> (match r {
                Some((shown, code)) => Some((shown@, code)),
                None => None,
            }) == parsed_match(Some((output, digits))),
{
    let marker = get_start_marker(command_id);
    proof {
        assert forall|noise: Seq<char>, output: Seq<char>, digits: Seq<char>, rest: Seq<char>|
            #[trigger] echoed(captured@, command_id@, noise, output, digits, rest) implies {
            let framed = seq!['\n'] + output + seq!['\n'];
            &&& ends(
                shown_after_start(captured@, command_id@),
                command_id@,
                framed,
                digits,
                seq!['\n'] + rest,
            )
            &&& trimmed(framed) == trimmed(output)
        } by {
            lemma_echoed(captured@, command_id@, noise, output, digits, rest);
        }
    }
    let found = match text_after_last(captured, marker.as_str()) {
        Some(after_start) => last_done(after_start.as_str(), command_id),
        None => last_done(captured, command_id),
    };
    parse_marker_match(found)
}

/// The exit code on a line that holds the DONE marker of a command.
///
/// It is the number in the first DONE marker of the line.
pub fn extract_exit_code(line: &str, command_id: &str) -> (r: Option<i32>)
    ensures
        r == (if !contains_text(line@, end_prefix(command_id@)) {
            None
        } else {
            match first_regex_group(done_pattern(command_id@), line@) {
                Some(digits) => i32_number(digits),
                None => None,
            }
        }),
        forall|before: Seq<char>, digits: Seq<char>, rest: Seq<char>|
            #[trigger] ends(line@, command_id@, before, digits, rest) && (forall|p: int|
                p < before.len() ==> !#[trigger] occurs_at(line@, end_prefix(command_id@), p))
                && searchable(command_id@) ==> r == i32_number(digits),
{
    let prefix = end_marker_prefix(command_id);
    if contains(line, prefix.as_str()) {
        let pattern = done_regex(command_id);
        let found = first_group(pattern.as_str(), line);
        proof {
            let literal = prefix@;
            assert(counted(literal) == pattern@);
            lemma_short_id(command_id@);
            assert forall|before: Seq<char>, digits: Seq<char>, rest: Seq<char>|
                #[trigger] ends(line@, command_id@, before, digits, rest) && (forall|p: int|
                    p < before.len() ==> !#[trigger] occurs_at(line@, literal, p)) && searchable(
                    command_id@,
                ) implies opt_view(found) == Some(digits) by {
                lemma_end_stands(line@, command_id@, before, digits, rest);
                assert(counted_at(line@, literal, before.len() as int));
                let group = (found->0)@;
                let p = choose|p: int|
                    counts(line@, literal, p, group) && (forall|q: int|
                        q < p ==> !#[trigger] counted_at(line@, literal, q));
                assert(occurs_at(line@, literal, p));
                assert(p == before.len());
                assert(line@.subrange(0, p) =~= before);
                lemma_ends(line@, command_id@, before, digits, rest, before, group);
            }
        }
        match found {
            Some(digits) => parse_i32(digits.as_str()),
            None => None,
        }
    } else {
        proof {
            assert forall|before: Seq<char>, digits: Seq<char>, rest: Seq<char>|
                !(#[trigger] ends(line@, command_id@, before, digits, rest)) by {
                if ends(line@, command_id@, before, digits, rest) {
                    lemma_end_stands(line@, command_id@, before, digits, rest);
                }
            }
        }
        None
    }
}

/// `set-buffer` with the exit code, DONE marker, then the signal; `status` is how the shell
/// expands the exit code.
pub open spec fn completion_text(
    command_id: Seq<char>,
    secret: Seq<char>,
    socket: Option<Seq<char>>,
    buffer_status: Seq<char>,
    marker_status: Seq<char>,
) -> Seq<char> {
    tmux_prefix(socket) + " set-buffer -b "@ + single_quoted("tmux-mcp-ec-"@ + secret) + " -- "@
        + buffer_status + "; echo \""@ + "TMUX_MCP_DONE_"@ + command_id + "_"@ + marker_status
        + "\"; "@ + tmux_prefix(socket) + " wait-for -S "@ + single_quoted(
        "tmux-mcp-done-"@ + secret,
    )
}

fn completion(
    command_id: &str,
    secret: &str,
    socket: Option<&str>,
    buffer_status: &str,
    marker_status: &str,
) -> (r: String)
    ensures
        r@ == completion_text(
            command_id@,
            secret@,
            opt_str_view(socket),
            buffer_status@,
            marker_status@,
        ),
{
    let tmux_bin = shell_tmux_prefix(socket);
    let buffer = shell_single_quote(exit_code_buffer_name(secret).as_str());
    let channel = shell_single_quote(wait_signal_name(secret).as_str());
    let mut out = shell_tmux_prefix(socket);
    out.append(" set-buffer -b ");
    out.append(buffer.as_str());
    out.append(" -- ");
    out.append(buffer_status);
    out.append("; echo \"");
    out.append("TMUX_MCP_DONE_");
    out.append(command_id);
    out.append("_");
    out.append(marker_status);
    out.append("\"; ");
    out.append(tmux_bin.as_str());
    out.append(" wait-for -S ");
    out.append(channel.as_str());
    out
}

/// What a Bash prompt hook runs to finish a command: take the exit code if none is set yet,
/// complete, and put the prompt hooks back.
pub open spec fn finalize_text(complete: Seq<char>, secret: Seq<char>) -> Seq<char> {
    let saved = "__tmux_mcp_prompt_"@ + secret;
    let finish = "__tmux_mcp_finish_"@ + secret;
    let ec = "__tmux_mcp_ec_"@ + secret;
    ec + "=${"@ + ec + "-$?}; "@ + complete + "; unset PROMPT_COMMAND; eval \"$"@ + saved
        + "\"; unset "@ + saved + " "@ + finish + " "@ + ec
}

/// A command line in Bash: the prompt hook finishes the command when an interrupt discards
/// the rest of the line.
pub open spec fn bash_text(
    command: Seq<char>,
    command_id: Seq<char>,
    secret: Seq<char>,
    socket: Option<Seq<char>>,
) -> Seq<char> {
    let saved = "__tmux_mcp_prompt_"@ + secret;
    let finish = "__tmux_mcp_finish_"@ + secret;
    let ec = "__tmux_mcp_ec_"@ + secret;
    let complete = completion_text(command_id, secret, socket, "\"$"@ + ec + "\""@, "$"@ + ec);
    let prompt = "PROMPT_COMMAND=('eval \"$"@ + finish + "\"' \"${PROMPT_COMMAND[@]}\")"@;
    "if [ -n \"${BASH_VERSION-}\" ]; then "@ + saved
        + "=$(declare -p PROMPT_COMMAND 2>/dev/null); "@ + finish + "="@ + single_quoted(
        finalize_text(complete, secret),
    ) + "; eval "@ + single_quoted(prompt) + "; fi; echo \""@ + start_marker(command_id) + "\"; "@
        + command + " ; "@ + ec + "=$?; if [ -n \"${BASH_VERSION-}\" ]; then eval \"$"@ + finish
        + "\"; else "@ + complete + "; unset "@ + ec + "; fi"@
}

/// A command line with START marker, the command, and the completion on the side channel.
pub open spec fn wrapped_command(
    command: Seq<char>,
    command_id: Seq<char>,
    secret: Seq<char>,
    shell: ShellType,
    socket: Option<Seq<char>>,
) -> Seq<char> {
    let head = "echo \""@ + start_marker(command_id) + "\"; "@ + command + " ; "@;
    match shell {
        ShellType::Fish => head + "set __tmux_mcp_ec $status; "@ + completion_text(
            command_id,
            secret,
            socket,
            "$__tmux_mcp_ec"@,
            "$__tmux_mcp_ec"@,
        ),
        ShellType::Zsh => head + "__tmux_mcp_ec=$?; "@ + completion_text(
            command_id,
            secret,
            socket,
            "\"$__tmux_mcp_ec\""@,
            "$__tmux_mcp_ec"@,
        ),
        ShellType::Bash | ShellType::Unknown => bash_text(command, command_id, secret, socket),
    }
}

/// Name of a shell variable that belongs to one command.
fn variable(prefix: &str, secret: &str) -> (r: String)
    ensures
        r@ == prefix@ + secret@,
{
    prefix.to_owned().concat(secret)
}

fn wrap_bash(command: &str, command_id: &str, secret: &str, socket: Option<&str>) -> (r: String)
    ensures
        r@ == bash_text(command@, command_id@, secret@, opt_str_view(socket)),
{
    // A foreground SIGINT can discard the rest of an interactive Bash input line. The command
    // is then finished at the next prompt; INT traps stay as they are. The names are those of
    // one command, so an old command cannot finish a newer one.
    let saved = variable("__tmux_mcp_prompt_", secret);
    let finish = variable("__tmux_mcp_finish_", secret);
    let ec = variable("__tmux_mcp_ec_", secret);
    let buffer_status = "\"$".to_owned().concat(ec.as_str()).concat("\"");
    let marker_status = "$".to_owned().concat(ec.as_str());
    let complete = completion(
        command_id,
        secret,
        socket,
        buffer_status.as_str(),
        marker_status.as_str(),
    );
    let mut finalize = ec.clone();
    finalize.append("=${");
    finalize.append(ec.as_str());
    finalize.append("-$?}; ");
    finalize.append(complete.as_str());
    finalize.append("; unset PROMPT_COMMAND; eval \"$");
    finalize.append(saved.as_str());
    finalize.append("\"; unset ");
    finalize.append(saved.as_str());
    finalize.append(" ");
    finalize.append(finish.as_str());
    finalize.append(" ");
    finalize.append(ec.as_str());
    assert(finalize@ == finalize_text(complete@, secret@));
    // Array syntax stays inside eval: sh and dash can run the other branch even when the pane
    // is configured as Bash. Scalar and array prompt hooks are kept verbatim.
    let mut prompt = "PROMPT_COMMAND=('eval \"$".to_owned();
    prompt.append(finish.as_str());
    prompt.append("\"' \"${PROMPT_COMMAND[@]}\")");
    let marker = get_start_marker(command_id);
    let mut out = "if [ -n \"${BASH_VERSION-}\" ]; then ".to_owned();
    out.append(saved.as_str());
    out.append("=$(declare -p PROMPT_COMMAND 2>/dev/null); ");
    out.append(finish.as_str());
    out.append("=");
    out.append(shell_single_quote(finalize.as_str()).as_str());
    out.append("; eval ");
    out.append(shell_single_quote(prompt.as_str()).as_str());
    out.append("; fi; echo \"");
    out.append(marker.as_str());
    out.append("\"; ");
    out.append(command);
    out.append(" ; ");
    out.append(ec.as_str());
    out.append("=$?; if [ -n \"${BASH_VERSION-}\" ]; then eval \"$");
    out.append(finish.as_str());
    out.append("\"; else ");
    out.append(complete.as_str());
    out.append("; unset ");
    out.append(ec.as_str());
    out.append("; fi");
    out
}

/// Wrap a tracked command with markers and side-channel completion.
pub fn wrap_tracked_command_side_channel(
    command: &str,
    command_id: &str,
    secret: &str,
    shell: &ShellType,
    socket: Option<&str>,
) -> (r: String)
    ensures
        r@ == wrapped_command(command@, command_id@, secret@, *shell, opt_str_view(socket)),
{
    let marker = get_start_marker(command_id);
    let mut out = "echo \"".to_owned();
    out.append(marker.as_str());
    out.append("\"; ");
    out.append(command);
    out.append(" ; ");
    match shell {
        ShellType::Fish => {
            let tail = completion(command_id, secret, socket, "$__tmux_mcp_ec", "$__tmux_mcp_ec");
            out.append("set __tmux_mcp_ec $status; ");
            out.append(tail.as_str());
            out
        },
        ShellType::Zsh => {
            let tail = completion(
                command_id,
                secret,
                socket,
                "\"$__tmux_mcp_ec\"",
                "$__tmux_mcp_ec",
            );
            out.append("__tmux_mcp_ec=$?; ");
            out.append(tail.as_str());
            out
        },
        ShellType::Bash | ShellType::Unknown => wrap_bash(command, command_id, secret, socket),
    }
}

/// A command between two markers, without a side channel.
pub fn wrap_tracked_command(command: &str, start_marker: &str, end_marker: &str) -> (r: String)
    ensures
        r@ == "echo \""@ + start_marker@ + "\"; "@ + command@ + " ; echo \""@ + end_marker@
            + "\""@,
{
    let mut out = "echo \"".to_owned();
    out.append(start_marker);
    out.append("\"; ");
    out.append(command);
    out.append(" ; echo \"");
    out.append(end_marker);
    out.append("\"");
    out
}

/// `s` after its last `/`.
pub open spec fn base_name(s: Seq<char>) -> Seq<char>
    decreases s.len(),
{
    if s.len() == 0 || s.last() == '/' {
        Seq::empty()
    } else {
        base_name(s.drop_last()).push(s.last())
    }
}

/// `s` without the dashes it starts with.
pub open spec fn skip_dashes(s: Seq<char>) -> Seq<char>
    decreases s.len(),
{
    if s.len() > 0 && s[0] == '-' {
        skip_dashes(s.skip(1))
    } else {
        s
    }
}

/// The dialect spoken by a pane whose foreground program is `current_command`.
pub open spec fn pane_shell(configured: ShellType, current_command: Seq<char>) -> ShellType {
    let name = skip_dashes(base_name(current_command));
    if name == "fish"@ {
        ShellType::Fish
    } else if name == "zsh"@ {
        ShellType::Zsh
    } else if name == "bash"@ || name == "sh"@ || name == "dash"@ || name == "ksh"@ {
        ShellType::Bash
    } else {
        configured
    }
}

/// Where the base name of `chars` begins.
pub fn base_name_start(chars: &Vec<char>) -> (r: usize)
    ensures
        r <= chars.len(),
        chars@.skip(r as int) == base_name(chars@),
{
    let mut start: usize = chars.len();
    let ghost n = chars@.len() as int;
    proof {
        assert(chars@.take(n) =~= chars@);
        assert(base_name(chars@) + chars@.skip(n) =~= base_name(chars@));
    }
    while start > 0 && chars[start - 1] != '/'
        invariant
            start <= chars.len(),
            n == chars@.len(),
            base_name(chars@) == base_name(chars@.take(start as int)) + chars@.skip(start as int),
        decreases start,
    {
        proof {
            let t = chars@.take(start as int);
            assert(t.drop_last() =~= chars@.take(start - 1));
            assert(base_name(chars@) =~= base_name(chars@.take(start - 1)) + chars@.skip(
                start - 1,
            ));
        }
        start -= 1;
    }
    proof {
        assert(base_name(chars@.take(start as int)) =~= Seq::<char>::empty());
        assert(base_name(chars@) =~= chars@.skip(start as int));
    }
    start
}

/// Prefer the pane's live shell over the process-wide default when wrapping markers.
///
/// Login shells (`-bash`) and absolute paths are normalized; with any other program in the
/// foreground the configured shell stands.
pub fn shell_type_for_pane_command(configured_shell: ShellType, current_command: &str) -> (r:
    ShellType)
    ensures
        r == pane_shell(configured_shell, current_command@),
{
    let chars = to_chars(current_command);
    let mut start: usize = base_name_start(&chars);
    while start < chars.len() && chars[start] == '-'
        invariant
            start <= chars.len(),
            chars@ == current_command@,
            skip_dashes(base_name(chars@)) == skip_dashes(chars@.skip(start as int)),
        decreases chars.len() - start,
    {
        proof {
            assert(chars@.skip(start as int).skip(1) =~= chars@.skip(start as int + 1));
        }
        start += 1;
    }
    let name = from_range(&chars, start, chars.len());
    assert(name@ =~= chars@.skip(start as int));
    if same(name.as_str(), "fish") {
        ShellType::Fish
    } else if same(name.as_str(), "zsh") {
        ShellType::Zsh
    } else if same(name.as_str(), "bash") || same(name.as_str(), "sh") || same(
        name.as_str(),
        "dash",
    ) || same(name.as_str(), "ksh") {
        ShellType::Bash
    } else {
        configured_shell
    }
}

} // verus!
