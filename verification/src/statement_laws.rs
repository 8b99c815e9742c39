//! What the splitting of command lines into statements promises.

use crate::markers::base_name;
use crate::shell::Quoting;
use crate::statements::{
    backtick_end, collected, flushed, is_shell, paren_end, runs_command_string, statements, within,
};
use crate::text::{is_space, trim_end, trim_start, trimmed};
use crate::text_laws::{blank_is_trimmed_to_nothing, is_blank};
use vstd::prelude::*;

verus! {

/// A character that is no shell syntax: no quote, no escape, and nothing that begins or ends a
/// substitution or a statement.
pub open spec fn is_word_char(c: char) -> bool {
    c != '\'' && c != '"' && c != '\\' && c != '`' && c != '$' && c != '<' && c != '>' && c != '('
        && c != ')' && c != ';' && c != '|' && c != '&' && c != '\n' && c != '\r'
}

/// Text without shell syntax.
pub open spec fn is_words(s: Seq<char>) -> bool {
    forall|i: int| 0 <= i < s.len() ==> is_word_char(#[trigger] s[i])
}

/// Text that double quotes keep together: without double quotes, escapes and substitutions.
pub open spec fn is_quotable(s: Seq<char>) -> bool {
    forall|i: int|
        0 <= i < s.len() ==> (#[trigger] s[i]) != '"' && s[i] != '\\' && s[i] != '`' && s[i] != '$'
}

proof fn lemma_step(a: Seq<char>, tail: Seq<char>)
    requires
        a.len() > 0,
    ensures
        (a + tail)[0] == a[0],
        (a + tail).skip(1) == a.skip(1) + tail,
        is_words(a) ==> is_words(a.skip(1)),
        is_quotable(a) ==> is_quotable(a.skip(1)),
{
    assert((a + tail).skip(1) =~= a.skip(1) + tail);
    assert forall|i: int| 0 <= i < a.skip(1).len() implies (#[trigger] a.skip(1)[i]) == a[i + 1] by {}
}

proof fn lemma_words(a: Seq<char>, tail: Seq<char>, current: Seq<char>)
    requires
        is_words(a),
    ensures
        collected(a + tail, current, false, false) == collected(tail, current + a, false, false),
    decreases a.len(),
{
    if a.len() == 0 {
        assert(a + tail =~= tail);
        assert(current + a =~= current);
    } else {
        lemma_step(a, tail);
        lemma_words(a.skip(1), tail, current.push(a[0]));
        assert(current.push(a[0]) + a.skip(1) =~= current + a);
    }
}

proof fn lemma_double(q: Seq<char>, tail: Seq<char>, current: Seq<char>)
    requires
        is_quotable(q),
    ensures
        collected(q + tail, current, false, true) == collected(tail, current + q, false, true),
    decreases q.len(),
{
    if q.len() == 0 {
        assert(q + tail =~= tail);
        assert(current + q =~= current);
    } else {
        lemma_step(q, tail);
        lemma_double(q.skip(1), tail, current.push(q[0]));
        assert(current.push(q[0]) + q.skip(1) =~= current + q);
    }
}

proof fn lemma_single(q: Seq<char>, tail: Seq<char>, current: Seq<char>)
    requires
        !q.contains('\''),
    ensures
        collected(q + tail, current, true, false) == collected(tail, current + q, true, false),
    decreases q.len(),
{
    if q.len() == 0 {
        assert(q + tail =~= tail);
        assert(current + q =~= current);
    } else {
        lemma_step(q, tail);
        assert(q.contains(q[0]));
        lemma_without(q);
        lemma_single(q.skip(1), tail, current.push(q[0]));
        assert(current.push(q[0]) + q.skip(1) =~= current + q);
    }
}

proof fn lemma_without(q: Seq<char>)
    requires
        q.len() > 0,
        !q.contains('\''),
    ensures
        !q.skip(1).contains('\''),
{
    if q.skip(1).contains('\'') {
        let i = choose|i: int| 0 <= i < q.skip(1).len() && q.skip(1)[i] == '\'';
        assert(q[i + 1] == '\'');
    }
}

proof fn lemma_paren_words(a: Seq<char>, tail: Seq<char>, depth: nat)
    requires
        is_words(a),
    ensures
        paren_end(a + tail, depth, false, false) == a.len() + paren_end(tail, depth, false, false),
    decreases a.len(),
{
    if a.len() == 0 {
        assert(a + tail =~= tail);
    } else {
        lemma_step(a, tail);
        lemma_paren_words(a.skip(1), tail, depth);
    }
}

proof fn lemma_paren_single(q: Seq<char>, tail: Seq<char>, depth: nat)
    requires
        !q.contains('\''),
    ensures
        paren_end(q + tail, depth, true, false) == q.len() + paren_end(tail, depth, true, false),
    decreases q.len(),
{
    if q.len() == 0 {
        assert(q + tail =~= tail);
    } else {
        lemma_step(q, tail);
        assert(q.contains(q[0]));
        lemma_without(q);
        lemma_paren_single(q.skip(1), tail, depth);
    }
}

proof fn lemma_paren_double(q: Seq<char>, tail: Seq<char>, depth: nat)
    requires
        is_quotable(q),
    ensures
        paren_end(q + tail, depth, false, true) == q.len() + paren_end(tail, depth, false, true),
    decreases q.len(),
{
    if q.len() == 0 {
        assert(q + tail =~= tail);
    } else {
        lemma_step(q, tail);
        lemma_paren_double(q.skip(1), tail, depth);
    }
}

proof fn lemma_backtick(a: Seq<char>, tail: Seq<char>)
    requires
        is_words(a),
    ensures
        backtick_end(a + tail) == a.len() + backtick_end(tail),
    decreases a.len(),
{
    if a.len() == 0 {
        assert(a + tail =~= tail);
    } else {
        lemma_step(a, tail);
        lemma_backtick(a.skip(1), tail);
    }
}

proof fn lemma_untouched(s: Seq<char>)
    requires
        s.len() > 0,
        !is_space(s[0]),
        !is_space(s.last()),
    ensures
        trimmed(s) == s,
        flushed(s) == seq![s],
{
    assert(trim_start(s) == s);
    assert(trim_end(s) == s);
}

proof fn lemma_flushed(s: Seq<char>)
    ensures
        is_blank(s) ==> flushed(s) == Seq::<Seq<char>>::empty(),
        !is_blank(s) ==> flushed(s) == seq![trimmed(s)],
{
    blank_is_trimmed_to_nothing(s);
}

proof fn lemma_all_words(a: Seq<char>)
    requires
        is_words(a),
    ensures
        statements(a) == flushed(a),
{
    lemma_words(a, Seq::empty(), Seq::empty());
    assert(a + Seq::<char>::empty() =~= a);
    assert(Seq::<char>::empty() + a =~= a);
}

/// A command without shell syntax is one statement, without the white space around it; a blank
/// one is none.
pub proof fn words_are_one_statement(a: Seq<char>)
    requires
        is_words(a),
    ensures
        !is_blank(a) ==> statements(a) == seq![trimmed(a)],
        is_blank(a) ==> statements(a).len() == 0,
{
    lemma_all_words(a);
    lemma_flushed(a);
}

/// A semicolon, a bar, an ampersand and a line break each end a statement.
pub proof fn statements_stand_between_separators(a: Seq<char>, separator: char, b: Seq<char>)
    requires
        is_words(a),
        is_words(b),
        separator == ';' || separator == '|' || separator == '&' || separator == '\n' || separator
            == '\r',
    ensures
        !is_blank(a) && !is_blank(b) ==> statements(a.push(separator) + b) == seq![
            trimmed(a),
            trimmed(b),
        ],
        !is_blank(a) && is_blank(b) ==> statements(a.push(separator) + b) == seq![trimmed(a)],
        is_blank(a) && !is_blank(b) ==> statements(a.push(separator) + b) == seq![trimmed(b)],
        is_blank(a) && is_blank(b) ==> statements(a.push(separator) + b).len() == 0,
{
    let tail = seq![separator] + b;
    assert(a.push(separator) + b =~= a + tail);
    lemma_words(a, tail, Seq::empty());
    assert(Seq::<char>::empty() + a =~= a);
    assert(tail[0] == separator);
    assert(tail.skip(1) =~= b);
    lemma_all_words(b);
    lemma_flushed(a);
    lemma_flushed(b);
    assert(statements(a + tail) == flushed(a) + statements(b));
    if !is_blank(a) && !is_blank(b) {
        assert(flushed(a) + flushed(b) =~= seq![trimmed(a), trimmed(b)]);
    } else if !is_blank(a) {
        assert(flushed(a) + flushed(b) =~= seq![trimmed(a)]);
    } else {
        assert(flushed(a) + flushed(b) =~= flushed(b));
    }
}

/// Text in double quotes stays in one statement, separators and process substitutions included.
pub proof fn double_quotes_keep_together(q: Seq<char>)
    requires
        is_quotable(q),
    ensures
        statements(seq!['"'] + q + seq!['"']) == seq![seq!['"'] + q + seq!['"']],
{
    let all = seq!['"'] + q + seq!['"'];
    let tail = seq!['"'];
    assert(all[0] == '"');
    assert(all.skip(1) =~= q + tail);
    assert(Seq::<char>::empty().push('"') =~= seq!['"']);
    lemma_double(q, tail, seq!['"']);
    assert(tail.skip(1) =~= Seq::<char>::empty());
    assert((seq!['"'] + q).push('"') =~= all);
    assert(collected(tail, seq!['"'] + q, false, true) == collected(
        Seq::empty(),
        all,
        false,
        false,
    ));
    lemma_untouched(all);
}

/// Text in single quotes stays in one statement, whatever it holds.
pub proof fn single_quotes_keep_together(q: Seq<char>)
    requires
        !q.contains('\''),
    ensures
        statements(seq!['\''] + q + seq!['\'']) == seq![seq!['\''] + q + seq!['\'']],
{
    let all = seq!['\''] + q + seq!['\''];
    let tail = seq!['\''];
    assert(all[0] == '\'');
    assert(all.skip(1) =~= q + tail);
    assert(Seq::<char>::empty().push('\'') =~= seq!['\'']);
    lemma_single(q, tail, seq!['\'']);
    assert(tail.skip(1) =~= Seq::<char>::empty());
    assert((seq!['\''] + q).push('\'') =~= all);
    assert(collected(tail, seq!['\''] + q, true, false) == collected(
        Seq::empty(),
        all,
        false,
        false,
    ));
    lemma_untouched(all);
}

/// An escaped character ends no statement.
pub proof fn escaped_characters_keep_together(c: char)
    requires
        !is_space(c),
    ensures
        statements(seq!['\\', c]) == seq![seq!['\\', c]],
{
    let all = seq!['\\', c];
    let none = Seq::<char>::empty();
    assert(all.len() == 2 && all[0] == '\\' && all[1] == c);
    assert(all.skip(2) =~= none);
    assert(none.push('\\').push(c) =~= all);
    assert(collected(all, none, false, false) == collected(none, all, false, false));
    lemma_untouched(all);
}

proof fn lemma_substitution(
    opener: char,
    inner: Seq<char>,
    b: Seq<char>,
    current: Seq<char>,
    double: bool,
)
    requires
        opener == '$' || !double && (opener == '<' || opener == '>'),
        paren_end(inner + seq![')'] + b, 1, false, false) == inner.len(),
    ensures
        collected(seq![opener, '('] + inner + seq![')'] + b, current, false, double) == statements(
            inner,
        ) + collected(b, current, false, double),
{
    let body = inner + seq![')'] + b;
    let all = seq![opener, '('] + inner + seq![')'] + b;
    assert(all =~= seq![opener, '('] + body);
    assert(all[0] == opener && all[1] == '(');
    assert(all.skip(2) =~= body);
    assert(body.take(inner.len() as int) =~= inner);
    assert(body.skip(inner.len() as int + 1) =~= b);
}

proof fn lemma_closes(inner: Seq<char>, b: Seq<char>)
    requires
        is_words(inner),
    ensures
        paren_end(inner + seq![')'] + b, 1, false, false) == inner.len(),
{
    let tail = seq![')'] + b;
    assert(inner + seq![')'] + b =~= inner + tail);
    lemma_paren_words(inner, tail, 1);
    assert(tail[0] == ')');
}

/// What a substitution runs is a statement of its own, before the one that it stands in:
/// `$(..)`, `<(..)` and `>(..)`.
pub proof fn substitutions_are_statements(
    a: Seq<char>,
    opener: char,
    inner: Seq<char>,
    b: Seq<char>,
)
    requires
        is_words(a),
        is_words(inner),
        is_words(b),
        !is_blank(inner),
        opener == '$' || opener == '<' || opener == '>',
    ensures
        !is_blank(a + b) ==> statements(a + (seq![opener, '('] + inner + seq![')'] + b)) == seq![
            trimmed(inner),
            trimmed(a + b),
        ],
        is_blank(a + b) ==> statements(a + (seq![opener, '('] + inner + seq![')'] + b)) == seq![
            trimmed(inner),
        ],
{
    let tail = seq![opener, '('] + inner + seq![')'] + b;
    lemma_words(a, tail, Seq::empty());
    assert(Seq::<char>::empty() + a =~= a);
    lemma_closes(inner, b);
    lemma_substitution(opener, inner, b, a, false);
    lemma_all_words(inner);
    lemma_words(b, Seq::empty(), a);
    assert(b + Seq::<char>::empty() =~= b);
    lemma_flushed(inner);
    lemma_flushed(a + b);
    if is_blank(a + b) {
        assert(seq![trimmed(inner)] + Seq::<Seq<char>>::empty() =~= seq![trimmed(inner)]);
    } else {
        assert(seq![trimmed(inner)] + seq![trimmed(a + b)] =~= seq![
            trimmed(inner),
            trimmed(a + b),
        ]);
    }
}

/// `$(..)` runs in double quotes too, and the quoted text around it stays together.
pub proof fn quoted_substitutions_are_statements(q: Seq<char>, inner: Seq<char>, r: Seq<char>)
    requires
        is_quotable(q),
        is_words(inner),
        is_quotable(r),
        !is_blank(inner),
    ensures
        statements(
            seq!['"'] + (q + (seq!['$', '('] + inner + seq![')'] + (r + seq!['"']))),
        ) == seq![trimmed(inner), seq!['"'] + q + r + seq!['"']],
{
    let b = r + seq!['"'];
    let tail = seq!['$', '('] + inner + seq![')'] + b;
    let all = seq!['"'] + (q + tail);
    assert(all[0] == '"');
    assert(all.skip(1) =~= q + tail);
    assert(Seq::<char>::empty().push('"') =~= seq!['"']);
    lemma_double(q, tail, seq!['"']);
    lemma_closes(inner, b);
    let open = seq!['"'] + q;
    lemma_substitution('$', inner, b, open, true);
    lemma_all_words(inner);
    lemma_flushed(inner);
    lemma_double(r, seq!['"'], open);
    let whole = seq!['"'] + q + r + seq!['"'];
    assert(seq!['"'].skip(1) =~= Seq::<char>::empty());
    assert((open + r).push('"') =~= whole);
    assert(collected(seq!['"'], open + r, false, true) == collected(
        Seq::empty(),
        whole,
        false,
        false,
    ));
    lemma_untouched(whole);
    assert(seq![trimmed(inner)] + seq![whole] =~= seq![trimmed(inner), whole]);
}

/// A substitution inside a substitution runs too, and the outer one ends at its own parenthesis.
pub proof fn nested_substitutions_are_statements(x: Seq<char>, y: Seq<char>, z: Seq<char>)
    requires
        is_words(x),
        is_words(y),
        is_words(z),
        !is_blank(y),
        !is_blank(x + z),
    ensures
        statements(
            seq!['$', '('] + (x + (seq!['$', '('] + y + seq![')'] + z)) + seq![')'],
        ) == seq![trimmed(y), trimmed(x + z)],
{
    let inner = x + (seq!['$', '('] + y + seq![')'] + z);
    let none = Seq::<char>::empty();
    let all = seq!['$', '('] + inner + seq![')'];
    let after_z = seq![')'] + none;
    let after_y = seq![')'] + (z + after_z);
    let after_x = seq!['$'] + (seq!['('] + (y + after_y));
    assert(inner + seq![')'] + none =~= x + after_x);
    lemma_paren_words(x, after_x, 1);
    assert(after_x[0] == '$');
    assert(after_x.skip(1) =~= seq!['('] + (y + after_y));
    let opened = seq!['('] + (y + after_y);
    assert(opened[0] == '(');
    assert(opened.skip(1) =~= y + after_y);
    lemma_paren_words(y, after_y, 2);
    assert(after_y[0] == ')');
    assert(after_y.skip(1) =~= z + after_z);
    lemma_paren_words(z, after_z, 1);
    assert(after_z[0] == ')');
    assert(paren_end(after_z, 1, false, false) == 0);
    assert(paren_end(z + after_z, 1, false, false) == z.len());
    assert(paren_end(after_y, 2, false, false) == 1 + z.len());
    assert(paren_end(opened, 1, false, false) == 1 + y.len() + 1 + z.len());
    assert(paren_end(after_x, 1, false, false) == 1 + paren_end(opened, 1, false, false));
    assert(paren_end(inner + seq![')'] + none, 1, false, false) == inner.len());
    lemma_substitution('$', inner, none, none, false);
    assert(all + none =~= all);
    assert(seq!['$', '('] + inner + seq![')'] + none =~= all);
    substitutions_are_statements(x, '$', y, z);
    assert(flushed(none).len() == 0) by {
        blank_is_trimmed_to_nothing(none);
    }
    assert(statements(inner) + flushed(none) =~= statements(inner));
}

/// A parenthesis in quotes does not end a substitution.
pub proof fn quoted_parentheses_do_not_close(q: Seq<char>, r: Seq<char>)
    requires
        !q.contains('\''),
        is_quotable(r),
    ensures
        statements(seq!['$', '('] + (seq!['\''] + q + seq!['\'']) + seq![')']) == seq![
            seq!['\''] + q + seq!['\''],
        ],
        statements(seq!['$', '('] + (seq!['"'] + r + seq!['"']) + seq![')']) == seq![
            seq!['"'] + r + seq!['"'],
        ],
{
    let none = Seq::<char>::empty();
    assert(flushed(none).len() == 0) by {
        blank_is_trimmed_to_nothing(none);
    }
    let close = seq![')'] + none;
    assert(close[0] == ')');
    let single = seq!['\''] + q + seq!['\''];
    let end = seq!['\''] + close;
    assert(single + seq![')'] + none =~= seq!['\''] + (q + end));
    assert((seq!['\''] + (q + end))[0] == '\'');
    assert((seq!['\''] + (q + end)).skip(1) =~= q + end);
    lemma_paren_single(q, end, 1);
    assert(end[0] == '\'');
    assert(end.skip(1) =~= close);
    assert(paren_end(close, 1, false, false) == 0);
    lemma_substitution('$', single, none, none, false);
    single_quotes_keep_together(q);
    assert(seq!['$', '('] + single + seq![')'] + none =~= seq!['$', '('] + single + seq![')']);
    assert(statements(single) + flushed(none) =~= statements(single));
    let double = seq!['"'] + r + seq!['"'];
    let fin = seq!['"'] + close;
    assert(double + seq![')'] + none =~= seq!['"'] + (r + fin));
    assert((seq!['"'] + (r + fin))[0] == '"');
    assert((seq!['"'] + (r + fin)).skip(1) =~= r + fin);
    lemma_paren_double(r, fin, 1);
    assert(fin[0] == '"');
    assert(fin.skip(1) =~= close);
    lemma_substitution('$', double, none, none, false);
    double_quotes_keep_together(r);
    assert(seq!['$', '('] + double + seq![')'] + none =~= seq!['$', '('] + double + seq![')']);
    assert(statements(double) + flushed(none) =~= statements(double));
}

/// An escaped parenthesis does not end a substitution.
pub proof fn escaped_parentheses_do_not_close(c: char)
    requires
        !is_space(c),
    ensures
        statements(seq!['$', '('] + seq!['\\', c] + seq![')']) == seq![seq!['\\', c]],
{
    let none = Seq::<char>::empty();
    let inner = seq!['\\', c];
    let body = inner + seq![')'] + none;
    let close = seq![')'] + none;
    assert(body[0] == '\\');
    assert(within(body, 2) == 2);
    assert(body.skip(2) =~= close);
    assert(close[0] == ')');
    assert(paren_end(close, 1, false, false) == 0);
    lemma_substitution('$', inner, none, none, false);
    escaped_characters_keep_together(c);
    assert(flushed(none).len() == 0) by {
        blank_is_trimmed_to_nothing(none);
    }
    assert(seq!['$', '('] + inner + seq![')'] + none =~= seq!['$', '('] + inner + seq![')']);
    assert(statements(inner) + flushed(none) =~= statements(inner));
}

/// What backticks run is a statement of its own, before the one that they stand in.
pub proof fn backticks_are_statements(a: Seq<char>, inner: Seq<char>, b: Seq<char>)
    requires
        is_words(a),
        is_words(inner),
        is_words(b),
        !is_blank(inner),
    ensures
        !is_blank(a + b) ==> statements(a + (seq!['`'] + inner + seq!['`'] + b)) == seq![
            trimmed(inner),
            trimmed(a + b),
        ],
        is_blank(a + b) ==> statements(a + (seq!['`'] + inner + seq!['`'] + b)) == seq![
            trimmed(inner),
        ],
{
    let tail = seq!['`'] + inner + seq!['`'] + b;
    lemma_words(a, tail, Seq::empty());
    assert(Seq::<char>::empty() + a =~= a);
    let next = inner + (seq!['`'] + b);
    assert(tail[0] == '`');
    assert(tail.skip(1) =~= next);
    lemma_backtick(inner, seq!['`'] + b);
    assert((seq!['`'] + b)[0] == '`');
    assert(backtick_end(next) == inner.len());
    assert(next.take(inner.len() as int) =~= inner);
    assert(next.skip(inner.len() as int + 1) =~= b);
    assert(collected(tail, a, false, false) == statements(inner) + collected(b, a, false, false));
    lemma_all_words(inner);
    lemma_words(b, Seq::empty(), a);
    assert(b + Seq::<char>::empty() =~= b);
    lemma_flushed(inner);
    lemma_flushed(a + b);
    if is_blank(a + b) {
        assert(seq![trimmed(inner)] + Seq::<Seq<char>>::empty() =~= seq![trimmed(inner)]);
    } else {
        assert(seq![trimmed(inner)] + seq![trimmed(a + b)] =~= seq![
            trimmed(inner),
            trimmed(a + b),
        ]);
    }
}

/// After `env`, options and assignments are passed over; the shell behind them runs a string of
/// commands where an option with a `c` follows it.
pub proof fn env_runs_the_shell_behind_it(args: Seq<Seq<char>>, k: int)
    requires
        1 <= k,
        k + 1 < args.len(),
        base_name(args[0]) == "env"@,
        forall|j: int|
            1 <= j < k ==> ((#[trigger] args[j]).len() > 0 && args[j][0] == '-') || args[j].contains(
                '=',
            ),
        is_shell(args[k]),
        !args[k].contains('='),
        args[k].len() == 0 || args[k][0] != '-',
    ensures
        args[k + 1].len() > 1 && args[k + 1][0] == '-' && args[k + 1][1] == 'c'
            ==> runs_command_string(args),
        args[k + 1].len() == 0 || args[k + 1][0] != '-' ==> !runs_command_string(args),
{
    reveal_strlit("env");
    reveal_strlit("sh");
    reveal_strlit("bash");
    reveal_strlit("zsh");
    reveal_strlit("fish");
    reveal_strlit("dash");
    reveal_strlit("ksh");
    assert("env"@.len() == 3 && "sh"@.len() == 2 && "zsh"@.len() == 3 && "ksh"@.len() == 3);
    assert("bash"@.len() == 4 && "fish"@.len() == 4 && "dash"@.len() == 4);
    assert("env"@[0] != "zsh"@[0] && "env"@[0] != "ksh"@[0]);
    assert(!is_shell(args[0]));
    assert(crate::statements::env_runs_shell(args, k));
    assert(crate::statements::shell_word(args, k));
    if args[k + 1].len() > 1 && args[k + 1][0] == '-' && args[k + 1][1] == 'c' {
        assert(crate::statements::asks_for_command(args[k + 1]));
        assert(crate::statements::command_option(args, k, k + 1));
    }
    if args[k + 1].len() == 0 || args[k + 1][0] != '-' {
        assert forall|i: int, m: int|
            crate::statements::shell_word(args, i)
                && #[trigger] crate::statements::command_option(args, i, m) implies false by {
            if i != k {
                assert(crate::statements::env_runs_shell(args, i));
            }
        }
    }
}

/// In single quotes only the closing quote counts, in double quotes also the backslash, which
/// escapes the next character; an escaped character changes nothing.
pub proof fn quotes_open_and_close(state: Quoting, c: char)
    ensures
        state.escaped ==> state.after(c) == (Quoting {
            single: state.single,
            double: state.double,
            escaped: false,
        }),
        !state.escaped && state.single ==> state.after(c) == (Quoting {
            single: c != '\'' || state.double,
            double: state.double,
            escaped: false,
        }),
        !state.escaped && !state.single ==> (state.after(c).escaped <==> c == '\\'),
        !state.escaped && !state.single && state.double ==> (!state.after(c).double <==> c == '"')
            && !state.after(c).single,
        state.is_plain() ==> (state.after(c).single <==> c == '\'') && (state.after(c).double <==> c
            == '"'),
        state.is_plain() <==> !state.single && !state.double && !state.escaped,
{
}

/// White space is what Unicode calls so: blanks, tabs, line breaks and their kin, and nothing
/// that is printed.
pub proof fn white_space_is_not_printed(c: char)
    ensures
        c == ' ' || c == '\t' || c == '\n' || c == '\r' || c == '\u{b}' || c == '\u{c}' || c
            == '\u{85}' || c == '\u{a0}' || c == '\u{2003}' || c == '\u{2028}' || c == '\u{3000}'
            ==> is_space(c),
        '!' <= c <= '~' ==> !is_space(c),
        c < '\t' ==> !is_space(c),
        '\u{a1}' <= c < '\u{1680}' ==> !is_space(c),
        '\u{3001}' <= c ==> !is_space(c),
{
}

} // verus!
