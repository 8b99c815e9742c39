//! What the operations on text promise.

use crate::text::{
    all_digits, contains_text, decimal, digit_char, digits_number, digits_value, has_prefix,
    i32_number, is_digit, is_hex_digit, is_space, lowered, occurs_at, replaced, split_at_char, text_less,
    trim_end, trim_start, trimmed, unsigned_number,
};
use crate::tools::first_index;
use vstd::prelude::*;

verus! {

/// Nothing but white space.
pub open spec fn is_blank(s: Seq<char>) -> bool {
    forall|i: int| 0 <= i < s.len() ==> is_space(#[trigger] s[i])
}

proof fn lemma_trim_start(s: Seq<char>) -> (front: Seq<char>)
    ensures
        s == front + trim_start(s),
        is_blank(front),
        trim_start(s).len() > 0 ==> !is_space(trim_start(s)[0]),
    decreases s.len(),
{
    if s.len() > 0 && is_space(s[0]) {
        let rest = lemma_trim_start(s.skip(1));
        let front = seq![s[0]] + rest;
        assert(s =~= seq![s[0]] + s.skip(1));
        assert(s =~= front + trim_start(s));
        assert forall|i: int| 0 <= i < front.len() implies is_space(#[trigger] front[i]) by {
            if i > 0 {
                assert(front[i] == rest[i - 1]);
            }
        }
        front
    } else {
        assert(s =~= Seq::<char>::empty() + s);
        Seq::empty()
    }
}

proof fn lemma_trim_end(s: Seq<char>) -> (back: Seq<char>)
    ensures
        s == trim_end(s) + back,
        is_blank(back),
        trim_end(s).len() > 0 ==> !is_space(trim_end(s).last()),
    decreases s.len(),
{
    if s.len() > 0 && is_space(s.last()) {
        let rest = lemma_trim_end(s.drop_last());
        let back = rest.push(s.last());
        assert(s =~= s.drop_last().push(s.last()));
        assert(s =~= trim_end(s) + back);
        back
    } else {
        assert(s =~= s + Seq::<char>::empty());
        Seq::empty()
    }
}

/// Trimming takes white space off both ends and nothing else: what is left stands in the text
/// between two blanks, and neither begins nor ends with white space.
pub proof fn trimming_takes_off_blanks(s: Seq<char>) -> (ends: (Seq<char>, Seq<char>))
    ensures
        s == ends.0 + trimmed(s) + ends.1,
        is_blank(ends.0),
        is_blank(ends.1),
        trimmed(s).len() > 0 ==> !is_space(trimmed(s)[0]) && !is_space(trimmed(s).last()),
{
    let front = lemma_trim_start(s);
    let back = lemma_trim_end(trim_start(s));
    assert(s =~= front + trimmed(s) + back);
    assert(trimmed(s).len() > 0 ==> trimmed(s)[0] == trim_start(s)[0]);
    (front, back)
}

/// Only a blank text is trimmed to nothing.
pub proof fn blank_is_trimmed_to_nothing(s: Seq<char>)
    ensures
        trimmed(s).len() == 0 <==> is_blank(s),
{
    let (front, back) = trimming_takes_off_blanks(s);
    if trimmed(s).len() == 0 {
        assert(s =~= front + back);
        assert forall|i: int| 0 <= i < s.len() implies is_space(#[trigger] s[i]) by {
            if i < front.len() {
                assert(s[i] == front[i]);
            } else {
                assert(s[i] == back[i - front.len()]);
            }
        }
    } else {
        assert(s[front.len() as int] == trimmed(s)[0]);
    }
}

/// Small letters stay, capital letters become small, position by position.
pub proof fn lowering_keeps_all_but_capitals(s: Seq<char>, i: int)
    requires
        0 <= i < s.len(),
    ensures
        lowered(s).len() == s.len(),
        !('A' <= s[i] <= 'Z') ==> lowered(s)[i] == s[i],
        'A' <= s[i] <= 'Z' ==> 'a' <= lowered(s)[i] <= 'z' && lowered(s)[i] as u32 - 'a' as u32
            == s[i] as u32 - 'A' as u32,
{
}

/// Parts put together with a separator between them.
pub open spec fn joined_with(parts: Seq<Seq<char>>, sep: char) -> Seq<char>
    decreases parts.len(),
{
    if parts.len() == 0 {
        Seq::empty()
    } else if parts.len() == 1 {
        parts[0]
    } else {
        joined_with(parts.drop_last(), sep).push(sep) + parts.last()
    }
}

proof fn lemma_split_push(s: Seq<char>, part: Seq<char>, sep: char)
    requires
        !part.contains(sep),
    ensures
        split_at_char(s, sep).len() > 0,
        split_at_char(s + part, sep) == split_at_char(s, sep).drop_last().push(
            split_at_char(s, sep).last() + part,
        ),
    decreases part.len(),
{
    lemma_split_nonempty(s, sep);
    let parts = split_at_char(s, sep);
    if part.len() == 0 {
        assert(s + part =~= s);
        assert(parts.last() + part =~= parts.last());
        assert(parts.drop_last().push(parts.last()) =~= parts);
    } else {
        let head = part.drop_last();
        assert(!head.contains(sep)) by {
            if head.contains(sep) {
                let i = choose|i: int| 0 <= i < head.len() && head[i] == sep;
                assert(part[i] == sep);
            }
        }
        lemma_split_push(s, head, sep);
        assert((s + part).drop_last() =~= s + head);
        assert((s + part).last() == part.last());
        assert(part.contains(part.last()));
        let before = split_at_char(s + head, sep);
        assert(before.last() =~= parts.last() + head);
        assert(before.drop_last() =~= parts.drop_last());
        assert((parts.last() + head).push(part.last()) =~= parts.last() + part);
    }
}

proof fn lemma_split_nonempty(s: Seq<char>, sep: char)
    ensures
        split_at_char(s, sep).len() > 0,
    decreases s.len(),
{
    if s.len() > 0 {
        lemma_split_nonempty(s.drop_last(), sep);
    }
}

/// What was put together with a separator is split into the same parts again.
pub proof fn joined_parts_are_split_again(parts: Seq<Seq<char>>, sep: char)
    requires
        parts.len() > 0,
        forall|i: int| 0 <= i < parts.len() ==> !(#[trigger] parts[i]).contains(sep),
    ensures
        split_at_char(joined_with(parts, sep), sep) == parts,
    decreases parts.len(),
{
    if parts.len() == 1 {
        lemma_split_push(Seq::empty(), parts[0], sep);
        assert(Seq::<char>::empty() + parts[0] =~= parts[0]);
        assert(split_at_char(Seq::<char>::empty(), sep) =~= seq![Seq::<char>::empty()]);
        assert(split_at_char(parts[0], sep) =~= parts);
    } else {
        let front = parts.drop_last();
        assert forall|i: int| 0 <= i < front.len() implies !(#[trigger] front[i]).contains(sep) by {
            assert(front[i] == parts[i]);
        }
        joined_parts_are_split_again(front, sep);
        let s = joined_with(front, sep).push(sep);
        assert(s.drop_last() =~= joined_with(front, sep));
        assert(split_at_char(s, sep) == front.push(Seq::empty()));
        assert(parts.last() == parts[parts.len() - 1]);
        lemma_split_push(s, parts.last(), sep);
        assert(front.push(Seq::<char>::empty()).drop_last() =~= front);
        assert(Seq::<char>::empty() + parts.last() =~= parts.last());
        assert(front.push(parts.last()) =~= parts);
    }
}

/// Splitting loses nothing: the parts hold no separator, and put together they are the text.
pub proof fn splitting_loses_nothing(s: Seq<char>, sep: char)
    ensures
        split_at_char(s, sep).len() > 0,
        forall|i: int|
            0 <= i < split_at_char(s, sep).len() ==> !(#[trigger] split_at_char(
                s,
                sep,
            )[i]).contains(sep),
        joined_with(split_at_char(s, sep), sep) == s,
    decreases s.len(),
{
    let parts = split_at_char(s, sep);
    if s.len() == 0 {
        assert(parts[0] =~= s);
    } else {
        splitting_loses_nothing(s.drop_last(), sep);
        let before = split_at_char(s.drop_last(), sep);
        if s.last() == sep {
            assert(parts.drop_last() =~= before);
            assert(joined_with(parts, sep) =~= s);
            assert forall|i: int| 0 <= i < parts.len() implies !(#[trigger] parts[i]).contains(
                sep,
            ) by {
                if i < before.len() {
                    assert(parts[i] == before[i]);
                }
            }
        } else {
            let last = before.last().push(s.last());
            assert(parts.drop_last() =~= before.drop_last());
            assert(parts.last() == last);
            assert(before.last() == before[before.len() - 1]);
            assert forall|i: int| 0 <= i < parts.len() implies !(#[trigger] parts[i]).contains(
                sep,
            ) by {
                if i < before.len() - 1 {
                    assert(parts[i] == before[i]);
                } else {
                    if last.contains(sep) {
                        let k = choose|k: int| 0 <= k < last.len() && last[k] == sep;
                        assert(before.last()[k] == sep);
                    }
                }
            }
            assert(s =~= s.drop_last().push(s.last()));
            assert(parts.len() == before.len());
            if before.len() == 1 {
                assert(parts[0] == last);
                assert(joined_with(parts, sep) =~= s);
            } else {
                assert(joined_with(before, sep) == joined_with(before.drop_last(), sep).push(sep)
                    + before.last());
                assert(joined_with(parts, sep) == joined_with(before.drop_last(), sep).push(sep)
                    + last);
                assert(joined_with(parts, sep) =~= s);
            }
        }
    }
}

/// A number written in decimal is read back: digits only, and none in front that says nothing.
pub proof fn decimal_is_read_back(n: nat)
    ensures
        decimal(n).len() > 0,
        all_digits(decimal(n)),
        digits_value(decimal(n)) == n,
        unsigned_number(decimal(n)) == Some(n),
        n > 0 ==> decimal(n)[0] != '0',
    decreases n,
{
    let text = decimal(n);
    if n < 10 {
        assert(text.drop_last() =~= Seq::<char>::empty());
        assert(text.last() == digit_char(n));
        assert(digits_value(text.drop_last()) == 0);
    } else {
        decimal_is_read_back(n / 10);
        assert(text.drop_last() =~= decimal(n / 10));
        assert(text.last() == digit_char(n % 10));
        assert forall|i: int| 0 <= i < text.len() implies is_digit(#[trigger] text[i]) by {
            if i < text.len() - 1 {
                assert(text[i] == decimal(n / 10)[i]);
            }
        }
        assert(text[0] == decimal(n / 10)[0]);
    }
    assert(digits_number(text) == Some(n));
    assert(is_digit(text[0]));
}

/// An exit code is read back from its digits, with or without a sign.
pub proof fn exit_code_is_read_back(code: i32)
    ensures
        code >= 0 ==> i32_number(decimal(code as nat)) == Some(code),
        code < 0 ==> i32_number(seq!['-'] + decimal((-code) as nat)) == Some(code),
{
    if code >= 0 {
        decimal_is_read_back(code as nat);
        assert(is_digit(decimal(code as nat)[0]));
    } else {
        let n = (-code) as nat;
        decimal_is_read_back(n);
        let text = seq!['-'] + decimal(n);
        assert(text.skip(1) =~= decimal(n));
    }
}

/// What is not a number in digits is no number.
pub proof fn only_digits_are_numbers(s: Seq<char>, i: int)
    requires
        0 <= i < s.len(),
        !is_digit(s[i]),
        i > 0 || (s[0] != '+' && s[0] != '-'),
    ensures
        i32_number(s) is None,
        unsigned_number(s) is None,
{
    if i > 0 {
        assert(s.skip(1)[i - 1] == s[i]);
    }
}

/// The order of texts is decided by the first place where they differ; a beginning of a text
/// comes before it.
pub proof fn first_difference_decides(front: Seq<char>, a: Seq<char>, b: Seq<char>)
    ensures
        a.len() > 0 && b.len() > 0 && a[0] < b[0] ==> text_less(front + a, front + b)
            && !text_less(front + b, front + a),
        b.len() > 0 ==> text_less(front, front + b) && !text_less(front + b, front),
        !text_less(front, front),
    decreases front.len(),
{
    if front.len() == 0 {
        assert(front + a =~= a);
        assert(front + b =~= b);
    } else {
        let rest = front.skip(1);
        first_difference_decides(rest, a, b);
        assert((front + a).skip(1) =~= rest + a);
        assert((front + b).skip(1) =~= rest + b);
    }
}

/// The first place of a character: it stands there and nowhere before, or nowhere at all.
pub proof fn first_index_is_first(s: Seq<char>, c: char)
    ensures
        0 <= first_index(s, c) <= s.len(),
        forall|i: int| 0 <= i < first_index(s, c) ==> s[i] != c,
        first_index(s, c) < s.len() ==> s[first_index(s, c)] == c,
        first_index(s, c) == s.len() <==> !s.contains(c),
    decreases s.len(),
{
    if s.len() > 0 && s[0] != c {
        first_index_is_first(s.skip(1), c);
        let k = first_index(s.skip(1), c);
        assert forall|i: int| 0 <= i < first_index(s, c) implies s[i] != c by {
            if i > 0 {
                assert(s.skip(1)[i - 1] == s[i]);
            }
        }
        if k < s.skip(1).len() {
            assert(s[k + 1] == c);
        }
        if s.contains(c) {
            let i = choose|i: int| 0 <= i < s.len() && s[i] == c;
            assert(s.skip(1)[i - 1] == c);
        }
    } else if s.len() > 0 {
        assert(s[0] == c);
    }
}

proof fn lemma_nothing_to_replace(s: Seq<char>, needle: Seq<char>, by_text: Seq<char>)
    requires
        needle.len() > 0,
        !contains_text(s, needle),
    ensures
        replaced(s, needle, by_text) == s,
    decreases s.len(),
{
    if s.len() > 0 {
        assert(!has_prefix(s, needle)) by {
            if has_prefix(s, needle) {
                assert(occurs_at(s, needle, 0));
            }
        }
        assert(!contains_text(s.skip(1), needle)) by {
            if contains_text(s.skip(1), needle) {
                let i = choose|i: int| occurs_at(s.skip(1), needle, i);
                assert(s.subrange(i + 1, i + 1 + needle.len()) =~= s.skip(1).subrange(
                    i,
                    i + needle.len(),
                ));
                assert(occurs_at(s, needle, i + 1));
            }
        }
        lemma_nothing_to_replace(s.skip(1), needle, by_text);
        assert(seq![s[0]] + s.skip(1) =~= s);
    }
}

/// Where a text stands once in another it is replaced there, and nothing else changes.
pub proof fn replacing_changes_nothing_else(
    a: Seq<char>,
    needle: Seq<char>,
    b: Seq<char>,
    by_text: Seq<char>,
)
    requires
        needle.len() > 0,
        forall|i: int| i != a.len() ==> !occurs_at(a + needle + b, needle, i),
    ensures
        replaced(a + needle + b, needle, by_text) == a + by_text + b,
    decreases a.len(),
{
    let all = a + needle + b;
    if a.len() == 0 {
        assert(all.subrange(0, needle.len() as int) =~= needle);
        assert(has_prefix(all, needle));
        assert(all.skip(needle.len() as int) =~= b);
        assert(!contains_text(b, needle)) by {
            if contains_text(b, needle) {
                let i = choose|i: int| occurs_at(b, needle, i);
                assert(all.subrange(i + needle.len(), i + 2 * needle.len()) =~= b.subrange(
                    i,
                    i + needle.len(),
                ));
                assert(occurs_at(all, needle, i + needle.len()));
            }
        }
        lemma_nothing_to_replace(b, needle, by_text);
        assert(by_text + b =~= a + by_text + b);
    } else {
        assert(!occurs_at(all, needle, 0));
        let rest = a.skip(1);
        let tail = rest + needle + b;
        assert(all.skip(1) =~= tail);
        assert forall|i: int| i != rest.len() implies !occurs_at(tail, needle, i) by {
            if occurs_at(tail, needle, i) {
                assert(all.subrange(i + 1, i + 1 + needle.len()) =~= tail.subrange(
                    i,
                    i + needle.len(),
                ));
                assert(occurs_at(all, needle, i + 1));
            }
        }
        replacing_changes_nothing_else(rest, needle, b, by_text);
        assert(seq![all[0]] + (rest + by_text + b) =~= a + by_text + b);
    }
}

/// A hexadecimal digit is a digit or one of the first six letters, small or capital.
pub proof fn hexadecimal_digits(c: char)
    ensures
        is_hex_digit(c) <==> '0' <= c <= '9' || 'a' <= c <= 'f' || 'A' <= c <= 'F',
        is_digit(c) <==> '0' <= c <= '9',
{
}

} // verus!
