//! What decimal numbers and words are.

use crate::health_check::check::{command_of, CommandView};
use crate::text::{
    all_digits, decimal, decimal_signed, is_digit, lemma_word_length, lemma_word_length_bounds,
    number, parsed_u16, unsigned_digits, white_space, word_length, words,
};
use vstd::prelude::*;

verus! {

/// A number below ten is written as its digit, and a longer one as its tenth followed by its
/// last digit.
pub proof fn law_decimal(n: nat, d: nat)
    requires
        d < 10,
    ensures
        decimal(d) == seq!["0123456789"@[d as int]],
        n > 0 ==> decimal(10 * n + d) == decimal(n).push("0123456789"@[d as int]),
{
    reveal_strlit("0123456789");
    if n > 0 {
        assert((10 * n + d) / 10 == n);
        assert((10 * n + d) % 10 == d);
    }
}

/// A negative number is written as the positive one with a minus sign in front.
pub proof fn law_signs(n: nat)
    ensures
        decimal_signed(n as int) == decimal(n),
        n > 0 ==> decimal_signed(-n) == seq!['-'] + decimal(n),
{
}

/// A text writes a 16-bit number exactly if it is made of decimal digits, one at least, with
/// or without a plus sign in front, and the value stays within 16 bits: each digit is worth
/// ten times the next.
pub proof fn law_parsed_u16(s: Seq<char>, c: char)
    ensures
        parsed_u16(seq![]) is None,
        parsed_u16(seq!['+']) is None,
        (forall|d: int| 0 <= d < 10 ==> c != #[trigger] "0123456789"@[d]) ==> parsed_u16(
            s.push(c),
        ) is None,
        forall|d: int|
            0 <= d < 10 && c == #[trigger] "0123456789"@[d] ==> parsed_u16(s.push(c)) == (if s
                == Seq::<char>::empty() || s == seq!['+'] {
                Some(d as u16)
            } else {
                match parsed_u16(s) {
                    Some(n) => if 10 * n + d <= 65535 {
                        Some((10 * n + d) as u16)
                    } else {
                        None
                    },
                    None => None,
                }
            }),
{
    reveal_strlit("0123456789");
    assert(unsigned_digits(seq!['+']) =~= seq![]);
    let longer = s.push(c);
    let digits = unsigned_digits(s);
    if s.len() > 0 {
        assert(longer[0] == s[0]);
        assert(unsigned_digits(longer) =~= digits.push(c));
    }
    if is_digit(c) {
        let d = c as int - '0' as int;
        assert("0123456789"@[d] == c);
    }
    if s.len() == 0 || s[0] == '+' && s.len() == 1 {
        assert(digits =~= seq![]);
        assert(s.len() == 1 ==> s =~= seq!['+']);
        if s.len() == 0 {
            assert(s =~= seq![]);
            if c == '+' {
                assert(longer =~= seq!['+']);
            } else {
                assert(unsigned_digits(longer) =~= seq![c]);
            }
        }
        assert(seq![c].drop_last() =~= seq![]);
        assert(number(seq![]) == 0);
        assert(digits.push(c) =~= seq![c]);
        assert(all_digits(seq![c]) == is_digit(c)) by {
            assert(seq![c][0] == c);
        }
    } else {
        let more = digits.push(c);
        assert(more.drop_last() =~= digits);
        assert(more.last() == c);
        assert(all_digits(more) == (all_digits(digits) && is_digit(c))) by {
            if all_digits(more) {
                assert forall|i: int| 0 <= i < digits.len() implies is_digit(
                    #[trigger] digits[i],
                ) by {
                    assert(more[i] == digits[i]);
                }
                assert(is_digit(more[digits.len() as int]));
            }
        }
        assert(digits.len() > 0);
    }
}

/// White space is the blank, the control characters from tab to carriage return, and what
/// Unicode counts as white space besides.
pub proof fn law_white_space(c: char)
    ensures
        white_space(c) == (c == ' ' || '\u{9}' <= c <= '\u{d}' || c == '\u{85}' || c == '\u{a0}' || c
            == '\u{1680}' || '\u{2000}' <= c <= '\u{200a}' || c == '\u{2028}' || c == '\u{2029}' || c
            == '\u{202f}' || c == '\u{205f}' || c == '\u{3000}'),
{
}

/// A text without white space is one word.
pub proof fn law_one_word(w: Seq<char>)
    requires
        w.len() > 0,
        forall|i: int| 0 <= i < w.len() ==> !white_space(#[trigger] w[i]),
    ensures
        words(w) == seq![w],
{
    lemma_word_length(w, w.len() as int);
    assert(!white_space(w[0]));
    assert(w.take(w.len() as int) =~= w);
    assert(w.skip(w.len() as int) =~= seq![]);
    assert(words(w.skip(w.len() as int)) =~= seq![]);
    assert(words(w) =~= seq![w]);
}

/// White space parts a text: its words are those in front and those behind, and nothing else.
pub proof fn law_words_are_parted(a: Seq<char>, c: char, b: Seq<char>)
    requires
        white_space(c),
    ensures
        words(seq![]) == Seq::<Seq<char>>::empty(),
        words(a + seq![c] + b) == words(a) + words(b),
    decreases a.len(),
{
    let s = a + seq![c] + b;
    if a.len() == 0 {
        assert(s[0] == c);
        assert(s.drop_first() =~= b);
        assert(words(a) + words(b) =~= words(b));
    } else if white_space(a[0]) {
        assert(s[0] == a[0]);
        assert(s.drop_first() =~= a.drop_first() + seq![c] + b);
        law_words_are_parted(a.drop_first(), c, b);
    } else {
        let n = word_length(a);
        lemma_word_length_bounds(a);
        lemma_solid(a);
        assert forall|i: int| 0 <= i < n implies !white_space(#[trigger] s[i]) by {
            assert(s[i] == a[i]);
        }
        assert(s[n] == (if n < a.len() {
            a[n]
        } else {
            c
        }));
        lemma_word_length(s, n);
        assert(s[0] == a[0]);
        assert(s.take(n) =~= a.take(n));
        assert(s.skip(n) =~= a.skip(n) + seq![c] + b);
        law_words_are_parted(a.skip(n), c, b);
        assert(words(s) =~= words(a) + words(b));
    }
}

proof fn lemma_solid(s: Seq<char>)
    ensures
        0 <= word_length(s) <= s.len(),
        forall|i: int| 0 <= i < word_length(s) ==> !white_space(#[trigger] s[i]),
        word_length(s) < s.len() ==> white_space(s[word_length(s)]),
    decreases s.len(),
{
    if s.len() > 0 && !white_space(s[0]) {
        let t = s.drop_first();
        lemma_solid(t);
        assert forall|i: int| 0 <= i < word_length(s) implies !white_space(#[trigger] s[i]) by {
            if i > 0 {
                assert(s[i] == t[i - 1]);
            }
        }
    }
}

/// A command is its first word, whatever white space stands around it, and its arguments are
/// the words behind that. Without a word there is no command.
pub proof fn law_command(c: char, line: Seq<char>, program: Seq<char>, rest: Seq<char>)
    requires
        white_space(c),
        program.len() > 0,
        forall|i: int| 0 <= i < program.len() ==> !white_space(#[trigger] program[i]),
    ensures
        command_of(seq![]) is None,
        command_of(seq![c] + line) == command_of(line),
        command_of(program) == Some(CommandView { program, args: seq![] }),
        command_of(program + seq![c] + rest) == Some(CommandView { program, args: words(rest) }),
{
    law_one_word(program);
    law_words_are_parted(program, c, rest);
    law_words_are_parted(seq![], c, line);
    assert(Seq::<char>::empty() + seq![c] + line =~= seq![c] + line);
    assert(words(seq![c] + line) =~= words(line));
    assert(words(program).skip(1) =~= seq![]);
    assert(words(program + seq![c] + rest).skip(1) =~= words(rest));
}

} // verus!
