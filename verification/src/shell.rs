//! How a POSIX shell reads quotes, escapes and operators in one command line.

use crate::text::{from_chars, is_space, space, to_chars};
use vstd::prelude::*;

verus! {

/// What governs the next character of a command line: the quotes that are open and whether
/// the character before it is an escaping backslash.
#[derive(Debug, Clone, Copy, PartialEq, Eq, Structural)]
pub struct Quoting {
    pub single: bool,
    pub double: bool,
    pub escaped: bool,
}

impl Quoting {
    /// Nothing is quoted or escaped.
    pub open spec fn none() -> Quoting {
        Quoting { single: false, double: false, escaped: false }
    }

    /// The quoting after the character `c`.
    pub open spec fn after(self, c: char) -> Quoting {
        if self.escaped {
            Quoting { escaped: false, ..self }
        } else if c == '\\' && !self.single {
            Quoting { escaped: true, ..self }
        } else if c == '\'' && !self.double {
            Quoting { single: !self.single, ..self }
        } else if c == '"' && !self.single {
            Quoting { double: !self.double, ..self }
        } else {
            self
        }
    }

    /// The quoting after the character `c`.
    pub fn next(self, c: char) -> (r: Quoting)
        ensures
            r == self.after(c),
    {
        if self.escaped {
            Quoting { single: self.single, double: self.double, escaped: false }
        } else if c == '\\' && !self.single {
            Quoting { single: self.single, double: self.double, escaped: true }
        } else if c == '\'' && !self.double {
            Quoting { single: !self.single, double: self.double, escaped: false }
        } else if c == '"' && !self.single {
            Quoting { single: self.single, double: !self.double, escaped: false }
        } else {
            self
        }
    }

    /// Whether the next character stands for itself as shell syntax.
    pub open spec fn is_plain(self) -> bool {
        !self.single && !self.double && !self.escaped
    }

    /// Whether the next character stands for itself as shell syntax.
    pub fn plain(self) -> (r: bool)
        ensures
            r == self.is_plain(),
    {
        !self.single && !self.double && !self.escaped
    }
}

/// The quoting that governs character `i` of `s`.
pub open spec fn quoting_at(s: Seq<char>, i: int) -> Quoting
    decreases i,
{
    if i <= 0 {
        Quoting::none()
    } else {
        quoting_at(s, i - 1).after(s[i - 1])
    }
}

/// Character `i` of `s` is neither quoted nor escaped.
pub open spec fn plain_at(s: Seq<char>, i: int) -> bool {
    quoting_at(s, i).is_plain()
}

/// Unquoted characters that end a shell word.
pub open spec fn is_separator(c: char) -> bool {
    is_space(c) || c == ';' || c == '&' || c == '|' || c == '(' || c == ')' || c == '<' || c == '>'
}

fn separator(c: char) -> (r: bool)
    ensures
        r == is_separator(c),
{
    space(c) || c == ';' || c == '&' || c == '|' || c == '(' || c == ')' || c == '<' || c == '>'
}

/// An unquoted `#` at the start of a word: what follows is a comment.
pub open spec fn comment_at(s: Seq<char>, i: int) -> bool {
    &&& 0 <= i < s.len()
    &&& s[i] == '#'
    &&& plain_at(s, i)
    &&& i == 0 || (plain_at(s, i - 1) && is_separator(s[i - 1]))
}

/// True when an unquoted `#` would start a shell comment and cut off what follows it.
pub fn has_unquoted_shell_comment_marker(command: &str) -> (r: bool)
    ensures
        r == exists|i: int| comment_at(command@, i),
{
    let chars = to_chars(command);
    let mut quoting = Quoting { single: false, double: false, escaped: false };
    let mut at_word_start: bool = true;
    let mut i: usize = 0;
    while i < chars.len()
        invariant
            i <= chars.len(),
            chars@ == command@,
            quoting == quoting_at(command@, i as int),
            quoting.is_plain() ==> at_word_start == (i == 0 || (plain_at(command@, i - 1)
                && is_separator(command@[i - 1]))),
            forall|j: int| j < i ==> !comment_at(command@, j),
        decreases chars.len() - i,
    {
        let c = chars[i];
        if c == '#' && quoting.plain() && at_word_start {
            assert(comment_at(command@, i as int));
            return true;
        }
        assert(!comment_at(command@, i as int));
        at_word_start = quoting.plain() && separator(c);
        quoting = quoting.next(c);
        i += 1;
    }
    false
}

/// An `&` that belongs to the operator the character before it begins: `&&`, `>&`, `<&`, `|&`.
pub open spec fn joined_ampersand(s: Seq<char>, i: int) -> bool
    decreases i,
{
    &&& 0 < i < s.len()
    &&& s[i] == '&'
    &&& plain_at(s, i - 1)
    &&& s[i - 1] == '>' || s[i - 1] == '<' || s[i - 1] == '|' || (s[i - 1] == '&'
        && !joined_ampersand(s, i - 1))
}

/// An unquoted `&` that sends work to the background: not part of `&&`, `&>` or a redirection.
pub open spec fn background_at(s: Seq<char>, i: int) -> bool {
    &&& 0 <= i < s.len()
    &&& s[i] == '&'
    &&& plain_at(s, i)
    &&& !joined_ampersand(s, i)
    &&& !(i + 1 < s.len() && (s[i + 1] == '&' || s[i + 1] == '>'))
}

/// True when an unquoted `&` would background work.
///
/// `&&`, `&>`, and redirections such as `2>&1` are not background operators.
pub fn has_unquoted_shell_background_operator(command: &str) -> (r: bool)
    ensures
        r == exists|i: int| background_at(command@, i),
{
    let chars = to_chars(command);
    let mut quoting = Quoting { single: false, double: false, escaped: false };
    let mut i: usize = 0;
    while i < chars.len()
        invariant
            i <= chars.len(),
            chars@ == command@,
            quoting == quoting_at(command@, i as int),
            !joined_ampersand(command@, i as int),
            forall|j: int| j < i ==> !background_at(command@, j),
        decreases chars.len() - i,
    {
        let c = chars[i];
        let joins = quoting.plain() && (c == '&' || c == '>' || c == '<' || c == '|') && i + 1
            < chars.len() && chars[i + 1] == '&';
        if joins {
            // The second character belongs to this operator; neither changes the quoting.
            assert(joined_ampersand(command@, i as int + 1));
            assert(quoting_at(command@, i as int + 1) == quoting);
            assert(quoting_at(command@, i as int + 2) == quoting);
            assert(!background_at(command@, i as int));
            assert(!background_at(command@, i as int + 1));
            i += 2;
        } else {
            if c == '&' && quoting.plain() && !(i + 1 < chars.len() && chars[i + 1] == '>') {
                assert(background_at(command@, i as int));
                return true;
            }
            assert(!background_at(command@, i as int));
            quoting = quoting.next(c);
            i += 1;
        }
    }
    false
}

/// The text that stands for `c` between single quotes.
pub open spec fn quoted_char(c: char) -> Seq<char> {
    if c == '\'' {
        seq!['\'', '\\', '\'', '\'']
    } else {
        seq![c]
    }
}

/// The characters of `s`, each as it is written between single quotes.
pub open spec fn quoted_body(s: Seq<char>) -> Seq<char>
    decreases s.len(),
{
    if s.len() == 0 {
        Seq::empty()
    } else {
        quoted_body(s.drop_last()) + quoted_char(s.last())
    }
}

/// `s` as one single-quoted shell word.
pub open spec fn single_quoted(s: Seq<char>) -> Seq<char> {
    seq!['\''] + quoted_body(s) + seq!['\'']
}

/// `text` as one single-quoted shell word.
pub fn shell_single_quote(text: &str) -> (r: String)
    ensures
        r@ == single_quoted(text@),
{
    let chars = to_chars(text);
    let mut out: Vec<char> = Vec::new();
    out.push('\'');
    let mut i: usize = 0;
    while i < chars.len()
        invariant
            i <= chars.len(),
            chars@ == text@,
            out@ == seq!['\''] + quoted_body(text@.take(i as int)),
        decreases chars.len() - i,
    {
        let c = chars[i];
        proof {
            assert(text@.take(i as int + 1).drop_last() =~= text@.take(i as int));
        }
        if c == '\'' {
            out.push('\'');
            out.push('\\');
            out.push('\'');
            out.push('\'');
        } else {
            out.push(c);
        }
        assert(out@ =~= seq!['\''] + (quoted_body(text@.take(i as int)) + quoted_char(c)));
        i += 1;
    }
    proof {
        assert(text@.take(text@.len() as int) =~= text@);
    }
    out.push('\'');
    assert(out@ =~= single_quoted(text@));
    from_chars(&out)
}

/// What the shell makes of `q`: quotes and escaping backslashes are taken away, every other
/// character stays.
pub open spec fn unquoted(q: Seq<char>, state: Quoting) -> Seq<char>
    decreases q.len(),
{
    if q.len() == 0 {
        Seq::empty()
    } else {
        let rest = unquoted(q.skip(1), state.after(q[0]));
        let syntax = !state.escaped && ((q[0] == '\\' && !state.single) || (q[0] == '\''
            && !state.double) || (q[0] == '"' && !state.single));
        if syntax {
            rest
        } else {
            seq![q[0]] + rest
        }
    }
}

proof fn lemma_unquoted_concat(a: Seq<char>, b: Seq<char>, state: Quoting)
    ensures
        unquoted(a + b, state) == unquoted(a, state) + unquoted(b, state_after(a, state)),
        state_after(a + b, state) == state_after(b, state_after(a, state)),
    decreases a.len(),
{
    if a.len() == 0 {
        assert(a + b =~= b);
        assert(unquoted(a, state) + unquoted(b, state) =~= unquoted(b, state));
    } else {
        assert((a + b).skip(1) =~= a.skip(1) + b);
        lemma_unquoted_concat(a.skip(1), b, state.after(a[0]));
        assert(unquoted(a + b, state) =~= unquoted(a, state) + unquoted(b, state_after(a, state)));
    }
}

/// The quoting after all of `q`, starting from `state`.
pub open spec fn state_after(q: Seq<char>, state: Quoting) -> Quoting
    decreases q.len(),
{
    if q.len() == 0 {
        state
    } else {
        state_after(q.skip(1), state.after(q[0]))
    }
}

proof fn lemma_unquoted_body(s: Seq<char>)
    ensures
        unquoted(quoted_body(s), (Quoting { single: true, double: false, escaped: false })) == s,
        state_after(quoted_body(s), (Quoting { single: true, double: false, escaped: false })) == (
        Quoting { single: true, double: false, escaped: false }),
    decreases s.len(),
{
    let inside = Quoting { single: true, double: false, escaped: false };
    if s.len() > 0 {
        lemma_unquoted_body(s.drop_last());
        let q = quoted_char(s.last());
        lemma_unquoted_concat(quoted_body(s.drop_last()), q, inside);
        assert(unquoted(q, inside) =~= seq![s.last()] && state_after(q, inside) == inside) by {
            reveal_with_fuel(unquoted, 6);
            reveal_with_fuel(state_after, 6);
            if s.last() == '\'' {
                assert(q.skip(1) =~= seq!['\\', '\'', '\'']);
                assert(q.skip(1).skip(1) =~= seq!['\'', '\'']);
                assert(q.skip(1).skip(1).skip(1) =~= seq!['\'']);
                assert(q.skip(1).skip(1).skip(1).skip(1) =~= Seq::<char>::empty());
            } else {
                assert(q.skip(1) =~= Seq::<char>::empty());
            }
        }
        assert(s.drop_last() + seq![s.last()] =~= s);
    }
}

/// The shell reads a single-quoted text back as that text, and no quote stays open after it.
pub proof fn single_quote_round_trip(s: Seq<char>)
    ensures
        unquoted(single_quoted(s), Quoting::none()) == s,
        state_after(single_quoted(s), Quoting::none()) == Quoting::none(),
{
    let inside = Quoting { single: true, double: false, escaped: false };
    let open = seq!['\''];
    lemma_unquoted_body(s);
    assert(open.skip(1) =~= Seq::<char>::empty());
    reveal_with_fuel(unquoted, 3);
    reveal_with_fuel(state_after, 3);
    assert(unquoted(open, Quoting::none()) == Seq::<char>::empty());
    assert(state_after(open, Quoting::none()) == inside);
    assert(unquoted(open, inside) == Seq::<char>::empty());
    assert(state_after(open, inside) == Quoting::none());
    lemma_unquoted_concat(open + quoted_body(s), open, Quoting::none());
    lemma_unquoted_concat(open, quoted_body(s), Quoting::none());
    assert(Seq::<char>::empty() + s + Seq::<char>::empty() =~= s);
}

} // verus!
