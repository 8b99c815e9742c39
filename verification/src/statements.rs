//! The statements that a shell would run for one command line.
//!
//! A command filter that looked at the whole line would let an allowed prefix carry further
//! statements past it. So the line is split into the statements the shell would execute, those
//! inside substitutions included, and syntax that cannot be followed is rejected.

use crate::errors::{Error, ErrorView};
use crate::markers::{base_name, base_name_start};
use crate::shell::{plain_at, quoting_at, Quoting};
use crate::text::{
    contains_char, from_range, is_space, same, space, to_chars, trim,
    trim_range, trimmed, trimmed_ends, views,
};
use vstd::prelude::*;

verus! {

/// The statement that `current` makes: none where nothing but white space was collected.
pub open spec fn flushed(current: Seq<char>) -> Seq<Seq<char>> {
    if trimmed(current).len() == 0 {
        Seq::empty()
    } else {
        seq![trimmed(current)]
    }
}

/// `n`, or the length of `s` where it is less.
pub open spec fn within(s: Seq<char>, n: int) -> int {
    if n < s.len() {
        n
    } else {
        s.len() as int
    }
}

/// Where the backtick that closes a substitution stands in `s`; past the end where none does.
pub open spec fn backtick_end(s: Seq<char>) -> nat
    decreases s.len(),
{
    if s.len() == 0 || s[0] == '`' {
        0
    } else if s[0] == '\\' {
        2 + backtick_end(s.skip(within(s, 2)))
    } else {
        1 + backtick_end(s.skip(1))
    }
}

/// Where the parenthesis that closes a substitution stands in `s`, with `depth` parentheses
/// open; past the end where none does. Quoted parentheses do not count.
pub open spec fn paren_end(s: Seq<char>, depth: nat, single: bool, double: bool) -> nat
    decreases s.len(),
{
    if s.len() == 0 {
        0
    } else if s[0] == '\'' && !double {
        1 + paren_end(s.skip(1), depth, !single, double)
    } else if s[0] == '"' && !single {
        1 + paren_end(s.skip(1), depth, single, !double)
    } else if s[0] == '\\' && !single {
        2 + paren_end(s.skip(within(s, 2)), depth, single, double)
    } else if s[0] == '(' && !single && !double {
        1 + paren_end(s.skip(1), depth + 1, single, double)
    } else if s[0] == ')' && !single && !double {
        if depth <= 1 {
            0
        } else {
            1 + paren_end(s.skip(1), (depth - 1) as nat, single, double)
        }
    } else {
        1 + paren_end(s.skip(1), depth, single, double)
    }
}

/// Characters that end a statement.
pub open spec fn ends_statement(c: char) -> bool {
    c == ';' || c == '|' || c == '&' || c == '\n' || c == '\r'
}

/// A substitution begins at the start of `rest`: `$(` anywhere but in single quotes, `<(` and
/// `>(` only unquoted.
pub open spec fn opens_substitution(rest: Seq<char>, double: bool) -> bool {
    &&& rest.len() > 1
    &&& rest[1] == '('
    &&& rest[0] == '$' || (!double && (rest[0] == '<' || rest[0] == '>'))
}

/// The statements of `rest`, where `current` is the start of a statement and the quotes are
/// open that `single` and `double` say. A substitution's statements come before the statement
/// around it, which goes on behind it.
pub open spec fn collected(rest: Seq<char>, current: Seq<char>, single: bool, double: bool) -> Seq<
    Seq<char>,
>
    decreases rest.len(),
{
    if rest.len() == 0 {
        flushed(current)
    } else {
        let c = rest[0];
        let next = rest.skip(1);
        if single {
            collected(next, current.push(c), c != '\'', double)
        } else if c == '\'' && !double {
            collected(next, current.push(c), true, double)
        } else if c == '"' {
            collected(next, current.push(c), single, !double)
        } else if c == '\\' {
            if rest.len() > 1 {
                collected(rest.skip(2), current.push(c).push(rest[1]), single, double)
            } else {
                collected(next, current.push(c), single, double)
            }
        } else if c == '`' {
            let end = backtick_end(next) as int;
            collected(next.take(within(next, end)), Seq::empty(), false, false) + collected(
                next.skip(within(next, end + 1)),
                current,
                single,
                double,
            )
        } else if opens_substitution(rest, double) {
            let body = rest.skip(2);
            let end = paren_end(body, 1, false, false) as int;
            collected(body.take(within(body, end)), Seq::empty(), false, false) + collected(
                body.skip(within(body, end + 1)),
                current,
                single,
                double,
            )
        } else if ends_statement(c) && !double {
            flushed(current) + collected(next, Seq::empty(), single, double)
        } else {
            collected(next, current.push(c), single, double)
        }
    }
}

/// The statements that a shell would run for `command`.
pub open spec fn statements(command: Seq<char>) -> Seq<Seq<char>> {
    collected(command, Seq::empty(), false, false)
}

/// Append a trimmed, non-empty statement to the list and start anew.
fn flush_statement(current: &mut Vec<char>, out: &mut Vec<String>)
    ensures
        final(current)@.len() == 0,
        views(final(out)@) == views(old(out)@) + flushed(old(current)@),
{
    let (lo, hi) = trim_range(current, 0, current.len());
    assert(current@.subrange(0, current@.len() as int) =~= current@);
    if lo < hi {
        out.push(from_range(current, lo, hi));
    }
    current.clear();
    assert(views(out@) =~= views(old(out)@) + flushed(old(current)@));
}

/// Where the backtick that closes a substitution which begins at `start` stands; the end
/// where none does.
fn find_backtick(chars: &Vec<char>, start: usize) -> (j: usize)
    requires
        start <= chars@.len(),
    ensures
        start <= j <= chars@.len(),
        j - start == within(
            chars@.skip(start as int),
            backtick_end(chars@.skip(start as int)) as int,
        ),
{
    let ghost body = chars@.skip(start as int);
    let mut j: usize = start;
    while j < chars.len() && chars[j] != '`'
        invariant
            start <= j <= chars@.len(),
            body == chars@.skip(start as int),
            within(body, backtick_end(body) as int) == within(
                body,
                j - start + backtick_end(chars@.skip(j as int)),
            ),
        decreases chars@.len() - j,
    {
        let ghost here = chars@.skip(j as int);
        proof {
            assert(here[0] == chars@[j as int]);
            assert(here.skip(1) =~= chars@.skip(j as int + 1));
            assert(here.skip(within(here, 2)) =~= chars@.skip(within(chars@, j as int + 2)));
        }
        if chars[j] == '\\' && j + 1 < chars.len() {
            j += 2;
        } else {
            j += 1;
        }
    }
    j
}

/// Where the parenthesis that closes a substitution which begins at `start` stands; the end
/// where none does, or one past it where the last character escapes.
pub fn find_matching_paren(chars: &Vec<char>, start: usize) -> (j: usize)
    requires
        start <= chars@.len(),
    ensures
        start <= j <= chars@.len() + 1,
        j < chars@.len() ==> chars@[j as int] == ')',
        chars@.len() < usize::MAX ==> j - start == paren_end(
            chars@.skip(start as int),
            1,
            false,
            false,
        ),
        within(chars@.skip(start as int), j - start) == within(
            chars@.skip(start as int),
            paren_end(chars@.skip(start as int), 1, false, false) as int,
        ),
{
    let ghost body = chars@.skip(start as int);
    let mut depth: u128 = 1;
    let mut j: usize = start;
    let mut in_single: bool = false;
    let mut in_double: bool = false;
    while j < chars.len()
        invariant
            start <= j <= chars@.len(),
            1 <= depth <= j - start + 1,
            body == chars@.skip(start as int),
            paren_end(body, 1, false, false) == j - start + paren_end(
                chars@.skip(j as int),
                depth as nat,
                in_single,
                in_double,
            ),
        decreases chars@.len() - j,
    {
        let ghost here = chars@.skip(j as int);
        let c = chars[j];
        proof {
            assert(here[0] == c);
            assert(here.skip(1) =~= chars@.skip(j as int + 1));
            assert(here.skip(within(here, 2)) =~= chars@.skip(within(chars@, j as int + 2)));
        }
        if c == '\'' && !in_double {
            in_single = !in_single;
        } else if c == '"' && !in_single {
            in_double = !in_double;
        } else if c == '\\' && !in_single {
            if j + 1 >= chars.len() {
                assert(paren_end(
                    here.skip(within(here, 2)),
                    depth as nat,
                    in_single,
                    in_double,
                ) == 0);
                return if chars.len() < usize::MAX {
                    chars.len() + 1
                } else {
                    chars.len()
                };
            }
            j += 1;
        } else if c == '(' && !in_single && !in_double {
            depth += 1;
        } else if c == ')' && !in_single && !in_double {
            if depth == 1 {
                return j;
            }
            depth -= 1;
        }
        j += 1;
    }
    j
}

/// The characters `chars[start..end]`.
fn slice_of(chars: &Vec<char>, start: usize, end: usize) -> (r: Vec<char>)
    requires
        start <= end <= chars@.len(),
    ensures
        r@ == chars@.subrange(start as int, end as int),
{
    let mut r: Vec<char> = Vec::new();
    let mut i: usize = start;
    while i < end
        invariant
            start <= i <= end <= chars@.len(),
            r@ == chars@.subrange(start as int, i as int),
        decreases end - i,
    {
        r.push(chars[i]);
        assert(r@ =~= chars@.subrange(start as int, i as int + 1));
        i += 1;
    }
    r
}

/// Append the statements of `chars` to `out`.
fn collect(chars: &Vec<char>, out: &mut Vec<String>)
    ensures
        views(final(out)@) == views(old(out)@) + statements(chars@),
    decreases chars@.len(),
{
    let ghost start_out = views(out@);
    let mut i: usize = 0;
    let mut current: Vec<char> = Vec::new();
    let mut in_single: bool = false;
    let mut in_double: bool = false;
    proof {
        assert(chars@.skip(0) =~= chars@);
        assert(current@ =~= Seq::<char>::empty());
    }
    while i < chars.len()
        invariant
            i <= chars@.len(),
            start_out + statements(chars@) == views(out@) + collected(
                chars@.skip(i as int),
                current@,
                in_single,
                in_double,
            ),
        decreases chars@.len() - i,
    {
        let ghost rest = chars@.skip(i as int);
        let ghost before = views(out@);
        let ghost cur = current@;
        let c = chars[i];
        proof {
            assert(rest[0] == c);
            assert(rest.skip(1) =~= chars@.skip(i as int + 1));
        }
        if in_single {
            if c == '\'' {
                in_single = false;
            }
            current.push(c);
            i += 1;
        } else if c == '\'' && !in_double {
            in_single = true;
            current.push(c);
            i += 1;
        } else if c == '"' {
            in_double = !in_double;
            current.push(c);
            i += 1;
        } else if c == '\\' {
            // An escaped character is kept verbatim, so that `\;` is no separator.
            current.push(c);
            if i + 1 < chars.len() {
                proof {
                    assert(rest[1] == chars@[i as int + 1]);
                    assert(rest.skip(2) =~= chars@.skip(i as int + 2));
                }
                current.push(chars[i + 1]);
                i += 2;
            } else {
                i += 1;
            }
        } else if c == '`' {
            let j: usize = find_backtick(chars, i + 1);
            let inner = slice_of(chars, i + 1, j);
            proof {
                let next = rest.skip(1);
                let n = backtick_end(next) as int;
                assert(inner@ =~= next.take(within(next, n)));
                let after = if j < chars@.len() { j + 1 } else { chars@.len() as int };
                assert(next.skip(within(next, n + 1)) =~= chars@.skip(after));
            }
            collect(&inner, out);
            proof {
                let next = rest.skip(1);
                let n = backtick_end(next) as int;
                let tail = collected(next.skip(within(next, n + 1)), cur, in_single, in_double);
                assert(before + (statements(inner@) + tail) =~= views(out@) + tail);
            }
            i = if j < chars.len() {
                j + 1
            } else {
                chars.len()
            };
        } else if i + 1 < chars.len() && chars[i + 1] == '(' && (c == '$' || (!in_double && (c
            == '<' || c == '>'))) {
            // Quoted parentheses do not close the substitution early.
            let found: usize = find_matching_paren(chars, i + 2);
            let j: usize = if found < chars.len() {
                found
            } else {
                chars.len()
            };
            let inner = slice_of(chars, i + 2, j);
            proof {
                assert(rest[1] == '(');
                let body = rest.skip(2);
                assert(body =~= chars@.skip(i as int + 2));
                let n = paren_end(body, 1, false, false) as int;
                assert(inner@ =~= body.take(within(body, n)));
                let after = if j < chars@.len() { j + 1 } else { chars@.len() as int };
                assert(body.skip(within(body, n + 1)) =~= chars@.skip(after));
            }
            collect(&inner, out);
            proof {
                let body = rest.skip(2);
                let n = paren_end(body, 1, false, false) as int;
                let tail = collected(body.skip(within(body, n + 1)), cur, in_single, in_double);
                assert(before + (statements(inner@) + tail) =~= views(out@) + tail);
            }
            i = if j < chars.len() {
                j + 1
            } else {
                chars.len()
            };
        } else if !in_double && (c == ';' || c == '|' || c == '&' || c == '\n' || c == '\r') {
            flush_statement(&mut current, out);
            proof {
                assert(current@ =~= Seq::<char>::empty());
                let tail = collected(rest.skip(1), Seq::empty(), in_single, in_double);
                assert(before + (flushed(cur) + tail) =~= views(out@) + tail);
                assert(!(rest.len() > 1 && rest[1] == '(' && (c == '$' || (!in_double && (c == '<'
                    || c == '>')))));
            }
            i += 1;
        } else {
            proof {
                assert(rest.len() > 1 ==> rest[1] == chars@[i as int + 1]);
            }
            current.push(c);
            i += 1;
        }
    }
    let ghost before = views(out@);
    flush_statement(&mut current, out);
    assert(chars@.skip(chars@.len() as int) =~= Seq::<char>::empty());
}

/// Split a command into the individual statements the shell would run.
///
/// Statements are separated on unquoted `;`, `|`, `&`, and newlines. Single quotes are literal.
/// Inside double quotes separators do not split, but command substitutions are still active.
/// `$(...)` and backticks are extracted recursively so that the commands they run are checked
/// too; `<(...)` and `>(...)` only where unquoted.
pub fn collect_shell_statements(input: &str, out: &mut Vec<String>)
    ensures
        views(final(out)@) == views(old(out)@) + statements(input@),
{
    let chars = to_chars(input);
    collect(&chars, out);
}

/// An ANSI-C quoted string `$'...'` begins at `i`.
pub open spec fn ansi_c_quote_at(s: Seq<char>, i: int) -> bool {
    0 <= i && i + 1 < s.len() && s[i] == '$' && s[i + 1] == '\'' && plain_at(s, i)
}

/// Whether the command holds an ANSI-C quoted string.
pub fn has_ansi_c_quote(input: &str) -> (r: bool)
    ensures
        r == exists|i: int| ansi_c_quote_at(input@, i),
{
    let chars = to_chars(input);
    let mut quoting = Quoting { single: false, double: false, escaped: false };
    let mut i: usize = 0;
    while i < chars.len()
        invariant
            i <= chars@.len(),
            chars@ == input@,
            quoting == quoting_at(input@, i as int),
            forall|j: int| j < i ==> !ansi_c_quote_at(input@, j),
        decreases chars@.len() - i,
    {
        let c = chars[i];
        if c == '$' && quoting.plain() && i + 1 < chars.len() && chars[i + 1] == '\'' {
            assert(ansi_c_quote_at(input@, i as int));
            return true;
        }
        assert(!ansi_c_quote_at(input@, i as int));
        quoting = quoting.next(c);
        i += 1;
    }
    false
}

/// A backslash outside single quotes stands at `i`.
pub open spec fn escape_at(s: Seq<char>, i: int) -> bool {
    0 <= i < s.len() && s[i] == '\\' && !quoting_at(s, i).single
}

/// Whether the command holds a backslash outside single quotes.
pub fn has_shell_escape_in_word(input: &str) -> (r: bool)
    ensures
        r == exists|i: int| escape_at(input@, i),
{
    let chars = to_chars(input);
    let mut quoting = Quoting { single: false, double: false, escaped: false };
    let mut i: usize = 0;
    while i < chars.len()
        invariant
            i <= chars@.len(),
            chars@ == input@,
            quoting == quoting_at(input@, i as int),
            forall|j: int| j < i ==> !escape_at(input@, j),
        decreases chars@.len() - i,
    {
        let c = chars[i];
        if c == '\\' && !quoting.single {
            assert(escape_at(input@, i as int));
            return true;
        }
        assert(!escape_at(input@, i as int));
        quoting = quoting.next(c);
        i += 1;
    }
    false
}

/// An unquoted parenthesis that opens no substitution, or an unquoted brace where a command
/// begins, stands at `i`.
pub open spec fn grouping_at(s: Seq<char>, i: int) -> bool {
    &&& 0 <= i < s.len()
    &&& plain_at(s, i)
    &&& {
        ||| s[i] == '(' && !(i > 0 && (s[i - 1] == '$' || s[i - 1] == '<' || s[i - 1] == '>'))
        ||| s[i] == '{' && (i == 0 || is_space(s[i - 1]) || s[i - 1] == ';' || s[i - 1] == '|'
            || s[i - 1] == '&')
    }
}

/// Whether the command groups commands in parentheses or braces.
pub fn has_unsupported_shell_grouping(input: &str) -> (r: bool)
    ensures
        r == exists|i: int| grouping_at(input@, i),
{
    let chars = to_chars(input);
    let mut quoting = Quoting { single: false, double: false, escaped: false };
    let mut i: usize = 0;
    while i < chars.len()
        invariant
            i <= chars@.len(),
            chars@ == input@,
            quoting == quoting_at(input@, i as int),
            forall|j: int| j < i ==> !grouping_at(input@, j),
        decreases chars@.len() - i,
    {
        let c = chars[i];
        if quoting.plain() {
            if c == '(' && !(i > 0 && (chars[i - 1] == '$' || chars[i - 1] == '<' || chars[i - 1]
                == '>')) {
                assert(grouping_at(input@, i as int));
                return true;
            }
            if c == '{' && (i == 0 || space(chars[i - 1]) || chars[i - 1] == ';' || chars[i - 1]
                == '|' || chars[i - 1] == '&') {
                assert(grouping_at(input@, i as int));
                return true;
            }
        }
        assert(!grouping_at(input@, i as int));
        quoting = quoting.next(c);
        i += 1;
    }
    false
}

/// Words of a statement as sequences of characters.
pub open spec fn words_view(words: Option<Vec<String>>) -> Option<Seq<Seq<char>>> {
    match words {
        Some(w) => Some(views(w@)),
        None => None,
    }
}

/// The words that a statement consists of, with quotes removed; none where a quote stays open.
pub uninterp spec fn shell_split(statement: Seq<char>) -> Option<Seq<Seq<char>>>;

/// `shell_words::split`: the words of a statement, a function of its text alone. It fails on an
/// unmatched quote.
#[verifier::external_body]
pub(crate) fn split_words(statement: &str) -> (r: Option<Vec<String>>)
    ensures
        words_view(r) == shell_split(statement@),
{
    shell_words::split(statement).ok()
}

/// The program is a shell, whatever directory it is called from.
pub open spec fn is_shell(command: Seq<char>) -> bool {
    let name = base_name(command);
    name == "sh"@ || name == "bash"@ || name == "zsh"@ || name == "fish"@ || name == "dash"@
        || name == "ksh"@
}

fn command_basename(command: &str) -> (r: String)
    ensures
        r@ == base_name(command@),
{
    let chars = to_chars(command);
    let start = base_name_start(&chars);
    let r = from_range(&chars, start, chars.len());
    assert(r@ =~= chars@.skip(start as int));
    r
}

/// Whether the program is a shell, whatever directory it is called from.
pub fn is_shell_command(command: &str) -> (r: bool)
    ensures
        r == is_shell(command@),
{
    let name = command_basename(command);
    let name = name.as_str();
    same(name, "sh") || same(name, "bash") || same(name, "zsh") || same(name, "fish") || same(
        name,
        "dash",
    ) || same(name, "ksh")
}

/// `arg` is an option: it starts with a dash.
pub open spec fn is_option(arg: Seq<char>) -> bool {
    arg.len() > 0 && arg[0] == '-'
}

/// After `env`, word `i` names the shell that is run: no option, no assignment.
pub open spec fn env_runs_shell(args: Seq<Seq<char>>, i: int) -> bool {
    &&& 1 <= i < args.len()
    &&& !is_option(args[i])
    &&& !args[i].contains('=')
    &&& is_shell(args[i])
}

/// Word `i` is the shell that these words run: the first word, or the first shell after `env`.
pub open spec fn shell_word(args: Seq<Seq<char>>, i: int) -> bool {
    if args.len() == 0 {
        false
    } else if is_shell(args[0]) {
        i == 0
    } else {
        &&& base_name(args[0]) == "env"@
        &&& env_runs_shell(args, i)
        &&& forall|j: int| 1 <= j < i ==> !env_runs_shell(args, j)
    }
}

/// Which of these words is the shell that they run.
pub fn shell_command_index(args: &Vec<String>) -> (r: Option<usize>)
    ensures
        match r {
            Some(i) => i < args@.len() && shell_word(views(args@), i as int),
            None => forall|i: int| !shell_word(views(args@), i),
        },
{
    let ghost words = views(args@);
    if args.len() == 0 {
        return None;
    }
    if is_shell_command(args[0].as_str()) {
        assert(is_shell(words[0]));
        return Some(0);
    }
    assert(!is_shell(words[0]));
    if !same(command_basename(args[0].as_str()).as_str(), "env") {
        assert(base_name(words[0]) != "env"@);
        return None;
    }
    assert(base_name(words[0]) == "env"@);
    let mut i: usize = 1;
    while i < args.len()
        invariant
            1 <= i <= args@.len(),
            words == views(args@),
            !is_shell(words[0]),
            base_name(words[0]) == "env"@,
            forall|j: int| 1 <= j < i ==> !env_runs_shell(words, j),
        decreases args@.len() - i,
    {
        let arg = args[i].as_str();
        assert(words[i as int] == arg@);
        if !starts_with_dash(arg) && !contains_char(arg, '=') && is_shell_command(arg) {
            assert(env_runs_shell(words, i as int));
            return Some(i);
        }
        assert(!env_runs_shell(words, i as int));
        i += 1;
    }
    None
}

fn starts_with_dash(arg: &str) -> (r: bool)
    ensures
        r == is_option(arg@),
{
    let chars = to_chars(arg);
    chars.len() > 0 && chars[0] == '-'
}

/// An option with a `c` in it, such as `-c` or `-lc`.
pub open spec fn asks_for_command(arg: Seq<char>) -> bool {
    is_option(arg) && exists|i: int| 1 <= i < arg.len() && arg[i] == 'c'
}

fn option_has_c(arg: &str) -> (r: bool)
    ensures
        is_option(arg@) ==> r == asks_for_command(arg@),
{
    let chars = to_chars(arg);
    let mut i: usize = 1;
    while i < chars.len()
        invariant
            1 <= i,
            chars@ == arg@,
            forall|j: int| 1 <= j < i && j < chars@.len() ==> chars@[j] != 'c',
        decreases chars@.len() - i,
    {
        if chars[i] == 'c' {
            assert(arg@[i as int] == 'c');
            return true;
        }
        i += 1;
    }
    false
}

/// Word `m` asks the shell at word `k` to run a string: it is one of the options directly
/// behind it, and holds a `c`.
pub open spec fn command_option(args: Seq<Seq<char>>, k: int, m: int) -> bool {
    &&& k < m < args.len()
    &&& forall|j: int| k < j <= m ==> is_option(#[trigger] args[j])
    &&& asks_for_command(args[m])
}

/// These words run a shell on a string of commands.
pub open spec fn runs_command_string(args: Seq<Seq<char>>) -> bool {
    exists|k: int, m: int| shell_word(args, k) && #[trigger] command_option(args, k, m)
}

/// Whether these words run a shell on a string of commands.
pub fn is_shell_c_invocation(args: &Vec<String>) -> (r: bool)
    ensures
        r == runs_command_string(views(args@)),
{
    let ghost words = views(args@);
    let k: usize = match shell_command_index(args) {
        Some(k) => k,
        None => {
            return false;
        },
    };
    proof {
        assert forall|j: int| shell_word(words, j) implies j == k by {
            if !is_shell(words[0]) {
                assert(env_runs_shell(words, j));
                assert(env_runs_shell(words, k as int));
            }
        }
    }
    let n: usize = args.len();
    let mut m: usize = k + 1;
    while m < n
        invariant
            k < m <= n == args@.len(),
            words == views(args@),
            shell_word(words, k as int),
            forall|j: int| shell_word(words, j) ==> j == k,
            forall|j: int| k < j < m ==> is_option(#[trigger] words[j]),
            forall|j: int| k < j < m ==> !command_option(words, k as int, j),
        decreases args@.len() - m,
    {
        let arg = args[m].as_str();
        assert(words[m as int] == arg@);
        if !starts_with_dash(arg) {
            assert forall|j: int| m <= j implies !command_option(words, k as int, j) by {
                if command_option(words, k as int, j) {
                    assert(is_option(words[m as int]));
                }
            }
            return false;
        }
        if option_has_c(arg) {
            assert(command_option(words, k as int, m as int));
            return true;
        }
        assert(!command_option(words, k as int, m as int));
        m += 1;
    }
    false
}

/// The statements that a filter looks at: those the shell would run, or the whole line where
/// there is none.
pub open spec fn subjects(command: Seq<char>) -> Seq<Seq<char>> {
    if statements(command).len() == 0 {
        seq![trimmed(command)]
    } else {
        statements(command)
    }
}

/// The statements that a filter looks at.
pub fn filter_subjects(command: &str) -> (r: Vec<String>)
    ensures
        views(r@) == subjects(command@),
{
    let mut out: Vec<String> = Vec::new();
    assert(views(out@) =~= Seq::<Seq<char>>::empty());
    collect_shell_statements(command, &mut out);
    assert(views(out@) =~= statements(command@));
    if out.len() == 0 {
        out.push(trim(command));
        assert(views(out@) =~= subjects(command@));
    }
    out
}

/// Some statement of the command runs a shell on a string of commands.
pub open spec fn has_command_string(command: Seq<char>) -> bool {
    exists|i: int|
        0 <= i < subjects(command).len() && (shell_split(
            #[trigger] subjects(command)[i],
        ) matches Some(words) && runs_command_string(words))
}

/// Whether some statement of the command runs a shell on a string of commands, such as
/// `bash -c '...'`.
pub fn has_shell_c_wrapper(command: &str) -> (r: bool)
    ensures
        r == has_command_string(command@),
{
    let lines = filter_subjects(command);
    let ghost all = subjects(command@);
    let mut i: usize = 0;
    while i < lines.len()
        invariant
            i <= lines@.len(),
            all == subjects(command@),
            views(lines@) == all,
            forall|j: int|
                0 <= j < i ==> !(shell_split(#[trigger] all[j]) matches Some(words)
                    && runs_command_string(words)),
        decreases lines@.len() - i,
    {
        assert(all[i as int] == lines@[i as int]@);
        match split_words(lines[i].as_str()) {
            Some(words) => if is_shell_c_invocation(&words) {
                return true;
            },
            None => {},
        }
        i += 1;
    }
    false
}

/// Why a command filter cannot judge a command, if it cannot: the syntax that it does not
/// follow.
pub open spec fn syntax_objection(command: Seq<char>) -> Option<Seq<char>> {
    if exists|i: int| ansi_c_quote_at(command, i) {
        Some("command filter rejects ANSI-C quoted strings ($'...')"@)
    } else if exists|i: int| escape_at(command, i) {
        Some("command filter rejects backslash escapes in command words"@)
    } else if exists|i: int| grouping_at(command, i) {
        Some("command filter rejects grouped shell commands"@)
    } else if has_command_string(command) {
        Some("command filter rejects shell -c wrappers"@)
    } else {
        None
    }
}

/// Reject a command whose statements cannot be told apart by the filter.
pub fn reject_unsupported_shell_filter_syntax(command: &str) -> (r: Result<(), Error>)
    ensures
        match r {
            Ok(_) => syntax_objection(command@) is None,
            Err(e) => syntax_objection(command@) matches Some(message) && e@
                == ErrorView::PolicyDenied(message),
        },
{
    if has_ansi_c_quote(command) {
        return Err(
            Error::denied("command filter rejects ANSI-C quoted strings ($'...')".to_owned()),
        );
    }
    if has_shell_escape_in_word(command) {
        return Err(
            Error::denied("command filter rejects backslash escapes in command words".to_owned()),
        );
    }
    if has_unsupported_shell_grouping(command) {
        return Err(Error::denied("command filter rejects grouped shell commands".to_owned()));
    }
    if has_shell_c_wrapper(command) {
        return Err(Error::denied("command filter rejects shell -c wrappers".to_owned()));
    }
    Ok(())
}

/// No character of `s` quotes, escapes, substitutes or separates.
pub open spec fn is_plain_text(s: Seq<char>) -> bool {
    forall|i: int|
        0 <= i < s.len() ==> {
            let c = #[trigger] s[i];
            c != '\'' && c != '"' && c != '\\' && c != '`' && c != '$' && c != '<' && c != '>' && c
                != '(' && c != ')' && !ends_statement(c)
        }
}

/// The quotes that are open behind `s`, where those are open before it that `single` and
/// `double` say; none where `s` ends in an escape or in a substitution.
pub open spec fn open_quotes(s: Seq<char>, single: bool, double: bool) -> Option<(bool, bool)>
    decreases s.len(),
{
    if s.len() == 0 {
        Some((single, double))
    } else {
        let c = s[0];
        let next = s.skip(1);
        if single {
            open_quotes(next, c != '\'', double)
        } else if c == '\'' && !double {
            open_quotes(next, true, double)
        } else if c == '"' {
            open_quotes(next, single, !double)
        } else if c == '\\' {
            if s.len() > 1 {
                open_quotes(s.skip(2), single, double)
            } else {
                None
            }
        } else if c == '`' {
            let end = backtick_end(next) as int;
            if end < next.len() {
                open_quotes(next.skip(end + 1), single, double)
            } else {
                None
            }
        } else if opens_substitution(s, double) {
            let body = s.skip(2);
            let end = paren_end(body, 1, false, false) as int;
            if end < body.len() {
                open_quotes(body.skip(end + 1), single, double)
            } else {
                None
            }
        } else {
            open_quotes(next, single, double)
        }
    }
}

/// A backtick that closes is found whatever follows it.
proof fn lemma_backtick_end(s: Seq<char>, tail: Seq<char>)
    requires
        backtick_end(s) < s.len(),
    ensures
        backtick_end(s + tail) == backtick_end(s),
    decreases s.len(),
{
    let all = s + tail;
    assert(all[0] == s[0]);
    if s[0] == '`' {
    } else if s[0] == '\\' {
        assert(s.len() > 2);
        assert(all.skip(2) =~= s.skip(2) + tail);
        lemma_backtick_end(s.skip(2), tail);
    } else {
        assert(all.skip(1) =~= s.skip(1) + tail);
        lemma_backtick_end(s.skip(1), tail);
    }
}

/// A parenthesis that closes is found whatever follows it.
proof fn lemma_paren_end(s: Seq<char>, tail: Seq<char>, depth: nat, single: bool, double: bool)
    requires
        paren_end(s, depth, single, double) < s.len(),
    ensures
        paren_end(s + tail, depth, single, double) == paren_end(s, depth, single, double),
    decreases s.len(),
{
    let all = s + tail;
    assert(all[0] == s[0]);
    assert(all.skip(1) =~= s.skip(1) + tail);
    if s[0] == '\'' && !double {
        lemma_paren_end(s.skip(1), tail, depth, !single, double);
    } else if s[0] == '"' && !single {
        lemma_paren_end(s.skip(1), tail, depth, single, !double);
    } else if s[0] == '\\' && !single {
        assert(s.len() > 2);
        assert(all.skip(2) =~= s.skip(2) + tail);
        lemma_paren_end(s.skip(2), tail, depth, single, double);
    } else if s[0] == '(' && !single && !double {
        lemma_paren_end(s.skip(1), tail, depth + 1, single, double);
    } else if s[0] == ')' && !single && !double {
        if depth > 1 {
            lemma_paren_end(s.skip(1), tail, (depth - 1) as nat, single, double);
        }
    } else {
        lemma_paren_end(s.skip(1), tail, depth, single, double);
    }
}

/// The statements that `a` completes, and the start of the one that it leaves open: what
/// follows `a` is collected from there.
proof fn lemma_prefix(
    a: Seq<char>,
    tail: Seq<char>,
    current: Seq<char>,
    single: bool,
    double: bool,
) -> (r: (Seq<Seq<char>>, Seq<char>))
    requires
        open_quotes(a, single, double) is Some,
        tail.len() > 0 && tail[0] != '(',
    ensures
        ({
            let (still_single, still_double) = open_quotes(a, single, double)->0;
            collected(a + tail, current, single, double) == r.0 + collected(
                tail,
                r.1,
                still_single,
                still_double,
            )
        }),
        collected(a, current, single, double) == r.0 + flushed(r.1),
    decreases a.len(),
{
    let all = a + tail;
    let none = Seq::<Seq<char>>::empty();
    if a.len() == 0 {
        assert(all =~= tail);
        let (still_single, still_double) = open_quotes(a, single, double)->0;
        assert(none + collected(tail, current, still_single, still_double) =~= collected(
            tail,
            current,
            still_single,
            still_double,
        ));
        assert(none + flushed(current) =~= flushed(current));
        (none, current)
    } else {
        let c = a[0];
        let next = a.skip(1);
        assert(all[0] == c);
        assert(all.skip(1) =~= next + tail);
        if single {
            lemma_prefix(next, tail, current.push(c), c != '\'', double)
        } else if c == '\'' && !double {
            lemma_prefix(next, tail, current.push(c), true, double)
        } else if c == '"' {
            lemma_prefix(next, tail, current.push(c), single, !double)
        } else if c == '\\' {
            assert(all[1] == a[1]);
            assert(all.skip(2) =~= a.skip(2) + tail);
            lemma_prefix(a.skip(2), tail, current.push(c).push(a[1]), single, double)
        } else if c == '`' {
            let end = backtick_end(next) as int;
            lemma_backtick_end(next, tail);
            assert((next + tail).take(end) =~= next.take(end));
            assert((next + tail).skip(end + 1) =~= next.skip(end + 1) + tail);
            let inner = collected(next.take(end), Seq::empty(), false, false);
            let (done, open) = lemma_prefix(next.skip(end + 1), tail, current, single, double);
            lemma_associate(inner, done, open, tail, a, single, double);
            (inner + done, open)
        } else if opens_substitution(a, double) {
            let body = a.skip(2);
            let end = paren_end(body, 1, false, false) as int;
            lemma_paren_end(body, tail, 1, false, false);
            assert(all[1] == a[1]);
            assert(all.skip(2) =~= body + tail);
            assert((body + tail).take(end) =~= body.take(end));
            assert((body + tail).skip(end + 1) =~= body.skip(end + 1) + tail);
            let inner = collected(body.take(end), Seq::empty(), false, false);
            let (done, open) = lemma_prefix(body.skip(end + 1), tail, current, single, double);
            lemma_associate(inner, done, open, tail, a, single, double);
            (inner + done, open)
        } else {
            assert(!opens_substitution(all, double)) by {
                assert(all[1] == if a.len() > 1 {
                    a[1]
                } else {
                    tail[0]
                });
            }
            if ends_statement(c) && !double {
                let (done, open) = lemma_prefix(next, tail, Seq::empty(), single, double);
                lemma_associate(flushed(current), done, open, tail, a, single, double);
                (flushed(current) + done, open)
            } else {
                lemma_prefix(next, tail, current.push(c), single, double)
            }
        }
    }
}

/// Lists of statements can be put together in either order.
proof fn lemma_associate(
    first: Seq<Seq<char>>,
    done: Seq<Seq<char>>,
    open: Seq<char>,
    tail: Seq<char>,
    a: Seq<char>,
    single: bool,
    double: bool,
)
    ensures
        open_quotes(a, single, double) matches Some((still_single, still_double)) ==> first + (done
            + collected(tail, open, still_single, still_double)) == first + done + collected(
            tail,
            open,
            still_single,
            still_double,
        ),
        first + (done + flushed(open)) == first + done + flushed(open),
{
    assert(first + (done + flushed(open)) =~= first + done + flushed(open));
    if open_quotes(a, single, double) is Some {
        let (still_single, still_double) = open_quotes(a, single, double)->0;
        let rest = collected(tail, open, still_single, still_double);
        assert(first + (done + rest) =~= first + done + rest);
    }
}

/// A command without shell syntax is one statement.
pub proof fn plain_command_is_one_statement(a: Seq<char>)
    requires
        is_plain_text(a),
    ensures
        statements(a) == flushed(a),
{
    lemma_plain(a, Seq::empty());
    assert(Seq::<char>::empty() + a =~= a);
}

proof fn lemma_plain(a: Seq<char>, current: Seq<char>)
    requires
        is_plain_text(a),
    ensures
        collected(a, current, false, false) == flushed(current + a),
    decreases a.len(),
{
    if a.len() == 0 {
        assert(current + a =~= current);
    } else {
        assert(is_plain_text(a.skip(1))) by {
            assert forall|i: int| 0 <= i < a.skip(1).len() implies ({
                let c = #[trigger] a.skip(1)[i];
                c != '\'' && c != '"' && c != '\\' && c != '`' && c != '$' && c != '<' && c != '>'
                    && c != '(' && c != ')' && !ends_statement(c)
            }) by {
                assert(a.skip(1)[i] == a[i + 1]);
            }
        }
        lemma_plain(a.skip(1), current.push(a[0]));
        assert(current.push(a[0]) + a.skip(1) =~= current + a);
    }
}

/// An unquoted separator splits a command: what stands before it and what stands behind it are
/// judged each for itself.
pub proof fn separators_split(a: Seq<char>, separator: char, b: Seq<char>)
    requires
        open_quotes(a, false, false) == Some((false, false)),
        ends_statement(separator),
    ensures
        statements(a + seq![separator] + b) == statements(a) + statements(b),
{
    let tail = seq![separator] + b;
    assert(a + seq![separator] + b =~= a + tail);
    let (done, open) = lemma_prefix(a, tail, Seq::empty(), false, false);
    assert(tail[0] == separator);
    assert(tail.skip(1) =~= b);
    assert(done + (flushed(open) + statements(b)) =~= done + flushed(open) + statements(b));
}

/// What a substitution runs is judged too, wherever it stands but in single quotes: `$(..)` also
/// in double quotes, `<(..)` and `>(..)` unquoted.
pub proof fn substitutions_are_judged(
    a: Seq<char>,
    opener: char,
    inner: Seq<char>,
    b: Seq<char>,
    statement: Seq<char>,
)
    requires
        open_quotes(a, false, false) matches Some((single, double)) && !single && (opener == '$'
            || !double && (opener == '<' || opener == '>')),
        paren_end(inner + seq![')'] + b, 1, false, false) == inner.len(),
        statements(inner).contains(statement),
    ensures
        statements(a + seq![opener, '('] + inner + seq![')'] + b).contains(statement),
{
    let body = inner + seq![')'] + b;
    let tail = seq![opener, '('] + body;
    let double = (open_quotes(a, false, false)->0).1;
    assert(a + seq![opener, '('] + inner + seq![')'] + b =~= a + tail);
    let (done, open) = lemma_prefix(a, tail, Seq::empty(), false, false);
    assert(tail[0] == opener && tail[1] == '(');
    assert(tail.skip(2) =~= body);
    assert(body.take(inner.len() as int) =~= inner);
    let behind = collected(body.skip(inner.len() as int + 1), open, false, double);
    assert(collected(tail, open, false, double) == statements(inner) + behind);
    let i = choose|i: int|
        0 <= i < statements(inner).len() && statements(inner)[i] == statement;
    assert((done + (statements(inner) + behind))[done.len() + i] == statement);
}

/// What backticks run is judged too, wherever they stand but in single quotes.
pub proof fn backticks_are_judged(
    a: Seq<char>,
    inner: Seq<char>,
    b: Seq<char>,
    statement: Seq<char>,
)
    requires
        open_quotes(a, false, false) matches Some((single, _)) && !single,
        backtick_end(inner + seq!['`'] + b) == inner.len(),
        statements(inner).contains(statement),
    ensures
        statements(a + seq!['`'] + inner + seq!['`'] + b).contains(statement),
{
    let body = inner + seq!['`'] + b;
    let tail = seq!['`'] + body;
    let double = (open_quotes(a, false, false)->0).1;
    assert(a + seq!['`'] + inner + seq!['`'] + b =~= a + tail);
    let (done, open) = lemma_prefix(a, tail, Seq::empty(), false, false);
    assert(tail[0] == '`');
    assert(tail.skip(1) =~= body);
    assert(body.take(inner.len() as int) =~= inner);
    let behind = collected(body.skip(inner.len() as int + 1), open, false, double);
    assert(collected(tail, open, false, double) == statements(inner) + behind);
    let i = choose|i: int|
        0 <= i < statements(inner).len() && statements(inner)[i] == statement;
    assert((done + (statements(inner) + behind))[done.len() + i] == statement);
}

proof fn lemma_quoted(quoted: Seq<char>, b: Seq<char>, current: Seq<char>)
    requires
        !quoted.contains('\''),
    ensures
        collected(quoted + seq!['\''] + b, current, true, false) == collected(
            b,
            current + quoted + seq!['\''],
            false,
            false,
        ),
    decreases quoted.len(),
{
    let all = quoted + seq!['\''] + b;
    if quoted.len() == 0 {
        assert(all[0] == '\'');
        assert(all.skip(1) =~= b);
        assert(current.push('\'') =~= current + quoted + seq!['\'']);
    } else {
        let rest = quoted.skip(1);
        assert(all[0] == quoted[0]);
        assert(quoted.contains(quoted[0]));
        assert(all.skip(1) =~= rest + seq!['\''] + b);
        assert(!rest.contains('\'')) by {
            if rest.contains('\'') {
                let i = choose|i: int| 0 <= i < rest.len() && rest[i] == '\'';
                assert(quoted[i + 1] == '\'');
            }
        }
        lemma_quoted(rest, b, current.push(quoted[0]));
        assert(current.push(quoted[0]) + rest + seq!['\''] =~= current + quoted + seq!['\'']);
    }
}

/// Text in single quotes stays in its statement, whatever it holds.
pub proof fn quoted_text_is_not_split(quoted: Seq<char>, b: Seq<char>)
    requires
        !quoted.contains('\''),
    ensures
        statements(seq!['\''] + quoted + seq!['\''] + b) == collected(
            b,
            seq!['\''] + quoted + seq!['\''],
            false,
            false,
        ),
{
    let all = seq!['\''] + quoted + seq!['\''] + b;
    assert(all[0] == '\'');
    assert(all.skip(1) =~= quoted + seq!['\''] + b);
    assert(Seq::<char>::empty().push('\'') =~= seq!['\'']);
    lemma_quoted(quoted, b, seq!['\'']);
}

/// A statement is not empty, and neither begins nor ends with white space.
pub open spec fn is_statement(s: Seq<char>) -> bool {
    s.len() > 0 && !is_space(s[0]) && !is_space(s.last())
}

/// Every text in a list is a proper statement.
pub open spec fn all_proper(list: Seq<Seq<char>>) -> bool {
    forall|i: int| 0 <= i < list.len() ==> is_statement(#[trigger] list[i])
}

proof fn lemma_proper_concat(x: Seq<Seq<char>>, y: Seq<Seq<char>>)
    requires
        all_proper(x),
        all_proper(y),
    ensures
        all_proper(x + y),
{
    assert forall|i: int| 0 <= i < (x + y).len() implies is_statement(#[trigger] (x + y)[i]) by {
        if i < x.len() {
            assert((x + y)[i] == x[i]);
        } else {
            assert((x + y)[i] == y[i - x.len()]);
        }
    }
}

proof fn lemma_collected(rest: Seq<char>, current: Seq<char>, single: bool, double: bool)
    ensures
        all_proper(collected(rest, current, single, double)),
    decreases rest.len(),
{
    trimmed_ends(current);
    assert(all_proper(flushed(current)));
    if rest.len() > 0 {
        let c = rest[0];
        let next = rest.skip(1);
        if single {
            lemma_collected(next, current.push(c), c != '\'', double);
        } else if c == '\'' && !double {
            lemma_collected(next, current.push(c), true, double);
        } else if c == '"' {
            lemma_collected(next, current.push(c), single, !double);
        } else if c == '\\' {
            if rest.len() > 1 {
                lemma_collected(rest.skip(2), current.push(c).push(rest[1]), single, double);
            } else {
                lemma_collected(next, current.push(c), single, double);
            }
        } else if c == '`' {
            let end = backtick_end(next) as int;
            lemma_collected(next.take(within(next, end)), Seq::empty(), false, false);
            lemma_collected(next.skip(within(next, end + 1)), current, single, double);
            lemma_proper_concat(
                collected(next.take(within(next, end)), Seq::empty(), false, false),
                collected(next.skip(within(next, end + 1)), current, single, double),
            );
        } else if opens_substitution(rest, double) {
            let body = rest.skip(2);
            let end = paren_end(body, 1, false, false) as int;
            lemma_collected(body.take(within(body, end)), Seq::empty(), false, false);
            lemma_collected(body.skip(within(body, end + 1)), current, single, double);
            lemma_proper_concat(
                collected(body.take(within(body, end)), Seq::empty(), false, false),
                collected(body.skip(within(body, end + 1)), current, single, double),
            );
        } else if ends_statement(c) && !double {
            lemma_collected(next, Seq::empty(), single, double);
            lemma_proper_concat(flushed(current), collected(next, Seq::empty(), single, double));
        } else {
            lemma_collected(next, current.push(c), single, double);
        }
    }
}

/// Every statement of a command is a proper one.
pub proof fn statements_are_proper(command: Seq<char>)
    ensures
        all_proper(statements(command)),
{
    lemma_collected(command, Seq::empty(), false, false);
}

} // verus!
