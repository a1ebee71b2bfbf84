//! Text as sequences of characters: searching, splitting and decimal numbers.

use vstd::prelude::*;

verus! {

/// The characters with the Unicode property `White_Space`.
pub open spec fn white_space(c: char) -> bool {
    let n = c as u32;
    ||| 0x09 <= n <= 0x0d
    ||| n == 0x20
    ||| n == 0x85
    ||| n == 0xa0
    ||| n == 0x1680
    ||| 0x2000 <= n <= 0x200a
    ||| n == 0x2028
    ||| n == 0x2029
    ||| n == 0x202f
    ||| n == 0x205f
    ||| n == 0x3000
}

/// Tells whether `c` is white space.
pub fn is_white_space(c: char) -> (b: bool)
    ensures
        b == white_space(c),
{
    let n = c as u32;
    (0x09 <= n && n <= 0x0d) || n == 0x20 || n == 0x85 || n == 0xa0 || n == 0x1680 || (0x2000 <= n
        && n <= 0x200a) || n == 0x2028 || n == 0x2029 || n == 0x202f || n == 0x205f || n == 0x3000
}

/// The characters of `s`, for access by index.
pub fn characters(s: &str) -> (v: Vec<char>)
    ensures
        v@ == s@,
{
    let mut v: Vec<char> = Vec::new();
    for c in it: s.chars()
        invariant
            v@ == it.seq().take(it.index()),
            it.seq() == s@,
    {
        v.push(c);
    }
    v
}

/// Where `c` first stands in `s`; the length of `s` where it does not occur.
pub open spec fn position(s: Seq<char>, c: char) -> int
    decreases s.len(),
{
    if s.len() == 0 || s[0] == c {
        0
    } else {
        1 + position(s.drop_first(), c)
    }
}

/// What stands in `s` before the first `c`: all of `s` where `c` does not occur.
pub open spec fn before(s: Seq<char>, c: char) -> Seq<char> {
    s.take(position(s, c))
}

/// What stands in `s` behind the first `c`, if `c` occurs.
pub open spec fn after(s: Seq<char>, c: char) -> Option<Seq<char>> {
    if position(s, c) < s.len() {
        Some(s.skip(position(s, c) + 1))
    } else {
        None
    }
}

/// `position` is the one index up to which `c` does not occur and at which it does, or the
/// text ends.
pub proof fn lemma_position(s: Seq<char>, c: char, p: int)
    requires
        0 <= p <= s.len(),
        forall|i: int| 0 <= i < p ==> s[i] != c,
        p < s.len() ==> s[p] == c,
    ensures
        position(s, c) == p,
    decreases s.len(),
{
    if s.len() > 0 && s[0] != c {
        let t = s.drop_first();
        assert forall|i: int| 0 <= i < p - 1 implies t[i] != c by {
            assert(t[i] == s[i + 1]);
        }
        lemma_position(t, c, p - 1);
    }
}

/// What `position` says of the text.
pub proof fn lemma_position_holds(s: Seq<char>, c: char)
    ensures
        0 <= position(s, c) <= s.len(),
        forall|i: int| 0 <= i < position(s, c) ==> s[i] != c,
        position(s, c) < s.len() ==> s[position(s, c)] == c,
    decreases s.len(),
{
    if s.len() > 0 && s[0] != c {
        let t = s.drop_first();
        lemma_position_holds(t, c);
        assert forall|i: int| 0 <= i < position(s, c) implies s[i] != c by {
            if i > 0 {
                assert(s[i] == t[i - 1]);
            }
        }
    }
}

/// The index of the first `c` in `s`, or the length of `s`.
fn find(s: &Vec<char>, c: char) -> (p: usize)
    ensures
        p == position(s@, c),
        p <= s@.len(),
{
    let mut p: usize = 0;
    while p < s.len() && s[p] != c
        invariant
            p <= s@.len(),
            forall|i: int| 0 <= i < p ==> s@[i] != c,
        decreases s@.len() - p,
    {
        p += 1;
    }
    proof {
        lemma_position(s@, c, p as int);
    }
    p
}

/// The part of `s` before the first `c`.
pub fn text_before<'a>(s: &'a str, c: char) -> (r: &'a str)
    ensures
        r@ == before(s@, c),
{
    let chars = characters(s);
    let p = find(&chars, c);
    s.substring_char(0, p)
}

/// The part of `s` behind the first `c`, if `c` occurs in it.
pub fn text_after<'a>(s: &'a str, c: char) -> (r: Option<&'a str>)
    ensures
        match r {
            Some(t) => after(s@, c) == Some(t@),
            None => after(s@, c) is None,
        },
{
    let chars = characters(s);
    let p = find(&chars, c);
    if p < chars.len() {
        Some(s.substring_char(p + 1, chars.len()))
    } else {
        None
    }
}

/// Tells whether `prefix` stands in `s` at `at`.
fn stands_at(s: &Vec<char>, prefix: &Vec<char>, at: usize) -> (b: bool)
    requires
        at <= s@.len(),
    ensures
        b == prefix@.is_prefix_of(s@.skip(at as int)),
{
    if s.len() - at < prefix.len() {
        return false;
    }
    let mut i: usize = 0;
    while i < prefix.len()
        invariant
            i <= prefix@.len(),
            at + prefix.len() <= s.len(),
            forall|j: int| 0 <= j < i ==> prefix@[j] == s@[at + j],
        decreases prefix@.len() - i,
    {
        if s[at + i] != prefix[i] {
            assert(s@.skip(at as int)[i as int] != prefix@[i as int]);
            return false;
        }
        i += 1;
    }
    assert(prefix@ =~= s@.skip(at as int).subrange(0, prefix@.len() as int));
    true
}

/// Tells whether `s` begins with `prefix`.
pub fn begins_with(s: &str, prefix: &str) -> (b: bool)
    ensures
        b == prefix@.is_prefix_of(s@),
{
    let chars = characters(s);
    let wanted = characters(prefix);
    assert(chars@.skip(0) =~= chars@);
    stands_at(&chars, &wanted, 0)
}

/// `part` occurs in `s`.
pub open spec fn has_part(s: Seq<char>, part: Seq<char>) -> bool {
    exists|i: int| 0 <= i <= s.len() && #[trigger] part.is_prefix_of(s.skip(i))
}

/// Tells whether `part` occurs in `s`.
pub fn contains(s: &str, part: &str) -> (b: bool)
    ensures
        b == has_part(s@, part@),
{
    let chars = characters(s);
    let wanted = characters(part);
    let mut i: usize = 0;
    while i < chars.len()
        invariant
            i <= chars@.len(),
            chars@ == s@,
            wanted@ == part@,
            forall|j: int| 0 <= j < i ==> !(#[trigger] part@.is_prefix_of(s@.skip(j))),
        decreases chars@.len() - i,
    {
        if stands_at(&chars, &wanted, i) {
            return true;
        }
        i += 1;
    }
    stands_at(&chars, &wanted, i)
}

/// `s` without the copies of `prefix` that it begins with.
pub open spec fn without_prefixes(s: Seq<char>, prefix: Seq<char>) -> Seq<char>
    decreases s.len(),
{
    if 0 < prefix.len() && prefix.is_prefix_of(s) {
        without_prefixes(s.skip(prefix.len() as int), prefix)
    } else {
        s
    }
}

/// Removes every copy of `prefix` that `s` begins with.
pub fn strip_prefixes<'a>(s: &'a str, prefix: &str) -> (r: &'a str)
    ensures
        r@ == without_prefixes(s@, prefix@),
{
    let chars = characters(s);
    let wanted = characters(prefix);
    let mut at: usize = 0;
    assert(chars@.skip(0) =~= chars@);
    while wanted.len() > 0 && stands_at(&chars, &wanted, at)
        invariant
            at <= chars@.len(),
            chars@ == s@,
            wanted@ == prefix@,
            without_prefixes(s@, prefix@) == without_prefixes(s@.skip(at as int), prefix@),
        decreases chars@.len() - at,
    {
        assert(s@.skip(at as int).skip(wanted@.len() as int) =~= s@.skip(at + wanted@.len()));
        assert(at + wanted.len() <= chars.len());
        at += wanted.len();
    }
    assert(s@.skip(at as int) =~= s@.subrange(at as int, s@.len() as int));
    s.substring_char(at, chars.len())
}

/// How many characters `s` has before its first white space.
pub open spec fn word_length(s: Seq<char>) -> int
    decreases s.len(),
{
    if s.len() == 0 || white_space(s[0]) {
        0
    } else {
        1 + word_length(s.drop_first())
    }
}

/// A word ends where white space first stands, or with the text.
pub proof fn lemma_word_length(s: Seq<char>, n: int)
    requires
        0 <= n <= s.len(),
        forall|i: int| 0 <= i < n ==> !white_space(#[trigger] s[i]),
        n < s.len() ==> white_space(s[n]),
    ensures
        word_length(s) == n,
    decreases s.len(),
{
    if s.len() > 0 && !white_space(s[0]) {
        let t = s.drop_first();
        assert forall|i: int| 0 <= i < n - 1 implies !white_space(#[trigger] t[i]) by {
            assert(t[i] == s[i + 1]);
        }
        lemma_word_length(t, n - 1);
    }
}

pub proof fn lemma_word_length_bounds(s: Seq<char>)
    ensures
        0 <= word_length(s) <= s.len(),
        s.len() > 0 && !white_space(s[0]) ==> word_length(s) > 0,
    decreases s.len(),
{
    if s.len() > 0 && !white_space(s[0]) {
        lemma_word_length_bounds(s.drop_first());
    }
}

/// The words of `s`: what stands between its white space, in order, none of them empty.
pub open spec fn words(s: Seq<char>) -> Seq<Seq<char>>
    decreases s.len(),
{
    if s.len() == 0 {
        seq![]
    } else if white_space(s[0]) {
        words(s.drop_first())
    } else {
        proof {
            lemma_word_length_bounds(s);
        }
        seq![s.take(word_length(s))] + words(s.skip(word_length(s)))
    }
}

/// No word is empty or holds white space, and a text has no words exactly if it is all white
/// space.
pub proof fn law_words(s: Seq<char>)
    ensures
        forall|i: int, j: int|
            0 <= i < words(s).len() && 0 <= j < words(s)[i].len() ==> !white_space(
                #[trigger] words(s)[i][j],
            ),
        forall|i: int| 0 <= i < words(s).len() ==> (#[trigger] words(s)[i]).len() > 0,
        words(s).len() == 0 <==> forall|i: int| 0 <= i < s.len() ==> white_space(#[trigger] s[i]),
    decreases s.len(),
{
    if s.len() > 0 {
        if white_space(s[0]) {
            let t = s.drop_first();
            law_words(t);
            assert(forall|i: int| 0 <= i < t.len() ==> t[i] == s[i + 1]);
            assert(forall|i: int| 0 < i < s.len() ==> s[i] == t[i - 1]);
        } else {
            let n = word_length(s);
            lemma_word_length_bounds(s);
            lemma_word_is_solid(s);
            law_words(s.skip(n));
            let rest = words(s.skip(n));
            assert(words(s)[0] == s.take(n));
            assert(forall|i: int| 0 < i < words(s).len() ==> words(s)[i] == rest[i - 1]);
        }
    }
}

proof fn lemma_word_is_solid(s: Seq<char>)
    ensures
        forall|i: int| 0 <= i < word_length(s) ==> !white_space(#[trigger] s[i]),
    decreases s.len(),
{
    if s.len() > 0 && !white_space(s[0]) {
        let t = s.drop_first();
        lemma_word_is_solid(t);
        lemma_word_length_bounds(t);
        assert forall|i: int| 0 <= i < word_length(s) implies !white_space(#[trigger] s[i]) by {
            if i > 0 {
                assert(s[i] == t[i - 1]);
            }
        }
    }
}

/// What a list of strings spells.
pub open spec fn spelled(v: Seq<String>) -> Seq<Seq<char>> {
    Seq::new(v.len(), |i: int| v[i]@)
}

/// Splits `s` at white space.
pub fn split_words(s: &str) -> (v: Vec<String>)
    ensures
        spelled(v@) == words(s@),
{
    let chars = characters(s);
    let mut v: Vec<String> = Vec::new();
    let mut at: usize = 0;
    assert(s@.skip(0) =~= s@);
    assert(spelled(v@) + words(s@) =~= words(s@));
    while at < chars.len()
        invariant
            at <= chars@.len(),
            chars@ == s@,
            spelled(v@) + words(s@.skip(at as int)) == words(s@),
        decreases chars@.len() - at,
    {
        let ghost rest = s@.skip(at as int);
        if is_white_space(chars[at]) {
            assert(rest.drop_first() =~= s@.skip(at + 1));
            at += 1;
        } else {
            let mut end: usize = at;
            while end < chars.len() && !is_white_space(chars[end])
                invariant
                    at <= end <= chars@.len(),
                    chars@ == s@,
                    forall|i: int| at <= i < end ==> !white_space(#[trigger] s@[i]),
                decreases chars@.len() - end,
            {
                end += 1;
            }
            proof {
                assert forall|i: int| 0 <= i < end - at implies !white_space(
                    #[trigger] rest[i],
                ) by {
                    assert(rest[i] == s@[at + i]);
                }
                lemma_word_length(rest, end - at);
            }
            let word = s.substring_char(at, end).to_owned();
            let ghost found = spelled(v@);
            v.push(word);
            proof {
                assert(rest[0] == s@[at as int]);
                assert(word@ =~= rest.take(end - at));
                assert(rest.skip(end - at) =~= s@.skip(end as int));
                assert(spelled(v@) =~= found.push(word@));
                assert(spelled(v@) + words(s@.skip(end as int)) =~= found + words(rest));
            }
            at = end;
        }
    }
    assert(s@.skip(at as int).len() == 0);
    assert(spelled(v@) + words(s@.skip(at as int)) =~= spelled(v@));
    v
}

/// `c` is one of the ten decimal digits.
pub open spec fn is_digit(c: char) -> bool {
    '0' <= c <= '9'
}

/// The value of a digit.
pub open spec fn digit_value(c: char) -> nat {
    (c as int - '0' as int) as nat
}

/// The digit of a value below ten.
pub open spec fn digit(d: nat) -> char {
    ('0' as int + d) as char
}

/// The value of a row of digits.
pub open spec fn number(s: Seq<char>) -> nat
    decreases s.len(),
{
    if s.len() == 0 {
        0
    } else {
        10 * number(s.drop_last()) + digit_value(s.last())
    }
}

pub open spec fn all_digits(s: Seq<char>) -> bool {
    forall|i: int| 0 <= i < s.len() ==> is_digit(#[trigger] s[i])
}

/// The digits of a number that may be written with a plus sign in front.
pub open spec fn unsigned_digits(s: Seq<char>) -> Seq<char> {
    if s.len() > 0 && s[0] == '+' {
        s.skip(1)
    } else {
        s
    }
}

/// The 16-bit number that `s` writes in decimal: one digit or more, a plus sign in front or
/// not, and a value that fits.
pub open spec fn parsed_u16(s: Seq<char>) -> Option<u16> {
    let digits = unsigned_digits(s);
    if digits.len() > 0 && all_digits(digits) && number(digits) <= u16::MAX {
        Some(number(digits) as u16)
    } else {
        None
    }
}

/// A row of digits is worth at least as much as each row that it begins with.
proof fn lemma_number_grows(s: Seq<char>, n: int)
    requires
        0 <= n <= s.len(),
    ensures
        number(s.take(n)) <= number(s),
    decreases s.len(),
{
    if n < s.len() {
        lemma_number_grows(s.drop_last(), n);
        assert(s.drop_last().take(n) =~= s.take(n));
    } else {
        assert(s.take(n) =~= s);
    }
}

/// Reads a 16-bit number in decimal.
pub fn parse_u16(s: &str) -> (r: Option<u16>)
    ensures
        r == parsed_u16(s@),
{
    let chars = characters(s);
    let start: usize = if chars.len() > 0 && chars[0] == '+' {
        1
    } else {
        0
    };
    let ghost digits = unsigned_digits(s@);
    assert(digits =~= s@.skip(start as int));
    if start == chars.len() {
        return None;
    }
    let mut i: usize = start;
    let mut value: u32 = 0;
    assert(digits.take(0) =~= seq![]);
    while i < chars.len()
        invariant
            start <= i <= chars@.len(),
            chars@ == s@,
            digits == s@.skip(start as int),
            digits == unsigned_digits(s@),
            forall|j: int| 0 <= j < i - start ==> is_digit(#[trigger] digits[j]),
            value == number(digits.take(i - start)),
            value <= u16::MAX,
        decreases chars@.len() - i,
    {
        let c = chars[i];
        assert(digits[i - start] == c);
        if c < '0' || '9' < c {
            return None;
        }
        let d = c as u32 - '0' as u32;
        proof {
            assert(digits.take(i - start + 1).drop_last() =~= digits.take(i - start));
        }
        value = 10 * value + d;
        i += 1;
        if value > 65535 {
            proof {
                lemma_number_grows(digits, i - start);
            }
            return None;
        }
    }
    assert(digits.take(i - start) =~= digits);
    Some(value as u16)
}

/// `n` written in decimal, without leading zeros.
pub open spec fn decimal(n: nat) -> Seq<char>
    decreases n,
{
    if n < 10 {
        seq![digit(n)]
    } else {
        decimal(n / 10).push(digit(n % 10))
    }
}

/// `n` written in decimal, with a minus sign in front where it is negative.
pub open spec fn decimal_signed(n: int) -> Seq<char> {
    if n < 0 {
        seq!['-'] + decimal((-n) as nat)
    } else {
        decimal(n as nat)
    }
}

fn digit_text(d: u64) -> (s: &'static str)
    requires
        d < 10,
    ensures
        s@ == seq![digit(d as nat)],
{
    proof {
        reveal_strlit("0");
        reveal_strlit("1");
        reveal_strlit("2");
        reveal_strlit("3");
        reveal_strlit("4");
        reveal_strlit("5");
        reveal_strlit("6");
        reveal_strlit("7");
        reveal_strlit("8");
        reveal_strlit("9");
    }
    let s = match d {
        0 => "0",
        1 => "1",
        2 => "2",
        3 => "3",
        4 => "4",
        5 => "5",
        6 => "6",
        7 => "7",
        8 => "8",
        _ => "9",
    };
    assert(s@ =~= seq![digit(d as nat)]);
    s
}

/// Writes `n` in decimal.
pub fn decimal_text(n: u64) -> (s: String)
    ensures
        s@ == decimal(n as nat),
    decreases n,
{
    if n < 10 {
        digit_text(n).to_owned()
    } else {
        let mut s = decimal_text(n / 10);
        s.append(digit_text(n % 10));
        assert(s@ =~= decimal(n as nat));
        s
    }
}

/// Writes `n` in decimal, with its sign where it is negative.
pub fn signed_text(n: i64) -> (s: String)
    ensures
        s@ == decimal_signed(n as int),
{
    if n < 0 {
        let magnitude: u64 = (-(n + 1)) as u64 + 1;
        let mut s = "-".to_owned();
        proof {
            reveal_strlit("-");
        }
        s.append(decimal_text(magnitude).as_str());
        assert(s@ =~= decimal_signed(n as int));
        s
    } else {
        decimal_text(n as u64)
    }
}

/// Reading back what was written gives the number: `parsed_u16` undoes `decimal`.
pub proof fn law_decimal_round_trip(n: nat)
    ensures
        decimal(n).len() > 0,
        all_digits(decimal(n)),
        number(decimal(n)) == n,
        n <= u16::MAX ==> parsed_u16(decimal(n)) == Some(n as u16),
    decreases n,
{
    if n < 10 {
        assert(decimal(n).drop_last() =~= seq![]);
        assert(number(decimal(n).drop_last()) == 0);
        assert(decimal(n).last() == digit(n));
    } else {
        law_decimal_round_trip(n / 10);
        assert(decimal(n).drop_last() =~= decimal(n / 10));
        assert forall|i: int| 0 <= i < decimal(n).len() implies is_digit(
            #[trigger] decimal(n)[i],
        ) by {
            if i < decimal(n / 10).len() {
                assert(decimal(n)[i] == decimal(n / 10)[i]);
            }
        }
    }
    assert(is_digit(decimal(n)[0]));
}

} // verus!
