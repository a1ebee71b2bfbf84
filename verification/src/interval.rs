//! Intervals such as `30s` or `1min 30s`, and the range that they have to keep to.

use crate::text::{
    all_digits, characters, decimal, digit_value, is_digit, is_white_space, law_decimal_round_trip,
    number, white_space,
};
use crate::trusted::{interval_nanos, parse_interval};
use vstd::prelude::*;

verus! {

/// The end of the range of a duration, in nanoseconds: 2^64 seconds.
pub const RANGE_NANOS: u128 = 18_446_744_073_709_551_616_000_000_000;

/// A number while it is read digit by digit: what stands before its point, and what stands
/// behind it, counted in parts of `scale`.
pub struct Numeral {
    pub whole: nat,
    pub part: nat,
    pub scale: nat,
    pub pointed: bool,
}

impl Numeral {
    /// A number of which nothing has been read.
    pub open spec fn unread() -> Numeral {
        Numeral { whole: 0, part: 0, scale: 1, pointed: false }
    }

    pub open spec fn with_digit(self, value: nat) -> Numeral {
        if self.pointed {
            Numeral { part: 10 * self.part + value, scale: 10 * self.scale, ..self }
        } else {
            Numeral { whole: 10 * self.whole + value, ..self }
        }
    }

    /// Each part of the number keeps to 64 bits.
    pub open spec fn fits(self) -> bool {
        self.whole <= u64::MAX && self.part <= u64::MAX && self.scale <= u64::MAX
    }

    /// So many of a unit.
    pub open spec fn times(self, unit: nat) -> nat {
        self.whole * unit + self.part * unit / self.scale
    }
}

/// The nanoseconds of the unit whose name `s` begins with, told by its first letters. What is
/// no unit at all counts as the longest one.
pub open spec fn unit_nanos(s: Seq<char>) -> nat {
    if s[0] == 'n' {
        1
    } else if s[0] == 'u' || s[0] == '\u{b5}' {
        1_000
    } else if s[0] == 'm' && s.len() > 1 && s[1] == 's' {
        1_000_000
    } else if s[0] == 'm' && s.len() > 2 && s[1] == 'i' && s[2] == 'l' {
        1_000_000
    } else if s[0] == 's' {
        1_000_000_000
    } else if s[0] == 'm' && !(s.len() > 1 && s[1] == 'o') {
        60_000_000_000
    } else if s[0] == 'h' {
        3_600_000_000_000
    } else if s[0] == 'd' {
        86_400_000_000_000
    } else if s[0] == 'w' {
        604_800_000_000_000
    } else if s[0] == 'm' || s[0] == 'M' {
        2_630_016_000_000_000
    } else {
        31_557_600_000_000_000
    }
}

/// The nanoseconds that the numbers in `s` come to, each with the unit behind it, where
/// `numeral` is what has been read in front of `s`. Digits with nothing but white space
/// between them belong to one number. A number beyond 64 bits ends the reading.
pub open spec fn written_nanos(s: Seq<char>, numeral: Numeral) -> nat
    decreases s.len(),
{
    if s.len() == 0 || !numeral.fits() {
        0
    } else if is_digit(s[0]) {
        written_nanos(s.drop_first(), numeral.with_digit(digit_value(s[0])))
    } else if white_space(s[0]) {
        written_nanos(s.drop_first(), numeral)
    } else if s[0] == '.' {
        written_nanos(s.drop_first(), Numeral { pointed: true, ..numeral })
    } else {
        numeral.times(unit_nanos(s)) + written_nanos(s.drop_first(), Numeral::unread())
    }
}

/// The interval that `s` writes ends before the range of a duration does.
pub open spec fn interval_in_range(s: Seq<char>) -> bool {
    written_nanos(s, Numeral::unread()) < RANGE_NANOS
}

/// The nanoseconds of the unit whose name stands in `s` at `at`.
fn unit_at(s: &Vec<char>, at: usize) -> (unit: u64)
    requires
        at < s@.len(),
    ensures
        unit == unit_nanos(s@.skip(at as int)),
        unit <= 31_557_600_000_000_000,
{
    let first = s[at];
    let has_second = s.len() - at > 1;
    let has_third = s.len() - at > 2;
    if first == 'n' {
        1
    } else if first == 'u' || first == '\u{b5}' {
        1_000
    } else if first == 'm' && has_second && s[at + 1] == 's' {
        1_000_000
    } else if first == 'm' && has_third && s[at + 1] == 'i' && s[at + 2] == 'l' {
        1_000_000
    } else if first == 's' {
        1_000_000_000
    } else if first == 'm' && !(has_second && s[at + 1] == 'o') {
        60_000_000_000
    } else if first == 'h' {
        3_600_000_000_000
    } else if first == 'd' {
        86_400_000_000_000
    } else if first == 'w' {
        604_800_000_000_000
    } else if first == 'm' || first == 'M' {
        2_630_016_000_000_000
    } else {
        31_557_600_000_000_000
    }
}

/// So many of a unit, in nanoseconds.
fn times(whole: u64, part: u64, scale: u64, pointed: bool, unit: u64) -> (nanos: u128)
    requires
        scale > 0,
        unit <= 31_557_600_000_000_000,
    ensures
        nanos == (Numeral {
            whole: whole as nat,
            part: part as nat,
            scale: scale as nat,
            pointed,
        }).times(unit as nat),
        nanos <= 0x1_0000_0000_0000_0000 * 63_115_200_000_000_000,
{
    assert(whole * unit <= 0xffff_ffff_ffff_ffff * 31_557_600_000_000_000) by (nonlinear_arith)
        requires
            whole <= 0xffff_ffff_ffff_ffff,
            unit <= 31_557_600_000_000_000,
    ;
    assert(part * unit <= 0xffff_ffff_ffff_ffff * 31_557_600_000_000_000) by (nonlinear_arith)
        requires
            part <= 0xffff_ffff_ffff_ffff,
            unit <= 31_557_600_000_000_000,
    ;
    assert(0 <= whole * unit && 0 <= part * unit) by (nonlinear_arith)
        requires
            whole >= 0,
            part >= 0,
            unit >= 0,
    ;
    let ghost product = part * unit;
    assert(0 <= product / (scale as int) <= product) by (nonlinear_arith)
        requires
            product >= 0,
            scale > 0,
    ;
    whole as u128 * unit as u128 + part as u128 * unit as u128 / scale as u128
}

/// Tells whether an interval keeps to the range of a duration.
pub fn interval_fits(interval: &str) -> (b: bool)
    ensures
        b == interval_in_range(interval@),
{
    let chars = characters(interval);
    let mut total: u128 = 0;
    let mut whole: u64 = 0;
    let mut part: u64 = 0;
    let mut scale: u64 = 1;
    let mut pointed = false;
    let ghost all = written_nanos(interval@, Numeral::unread());
    assert(interval@.skip(0) =~= interval@);
    for i in 0..chars.len()
        invariant
            chars@ == interval@,
            all == written_nanos(interval@, Numeral::unread()),
            scale > 0,
            total < RANGE_NANOS,
            all == total + written_nanos(
                interval@.skip(i as int),
                Numeral { whole: whole as nat, part: part as nat, scale: scale as nat, pointed },
            ),
    {
        let c = chars[i];
        assert(interval@.skip(i as int).drop_first() =~= interval@.skip(i + 1));
        assert(interval@.skip(i as int)[0] == c);
        if '0' <= c && c <= '9' {
            let value = c as u64 - '0' as u64;
            let ghost longer_numeral = Numeral {
                whole: whole as nat,
                part: part as nat,
                scale: scale as nat,
                pointed,
            }.with_digit(value as nat);
            assert(all == total + written_nanos(interval@.skip(i + 1), longer_numeral));
            let digits: u64 = if pointed {
                part
            } else {
                whole
            };
            let longer = match digits.checked_mul(10) {
                Some(tenfold) => tenfold.checked_add(value),
                None => None,
            };
            let finer = if pointed {
                scale.checked_mul(10)
            } else {
                Some(scale)
            };
            match (longer, finer) {
                (Some(longer), Some(finer)) => {
                    if pointed {
                        part = longer;
                    } else {
                        whole = longer;
                    }
                    scale = finer;
                },
                _ => {
                    assert(!longer_numeral.fits());
                    return true;
                },
            }
        } else if is_white_space(c) {
        } else if c == '.' {
            pointed = true;
        } else {
            total = total + times(whole, part, scale, pointed, unit_at(&chars, i));
            whole = 0;
            part = 0;
            scale = 1;
            pointed = false;
            if total >= RANGE_NANOS {
                return false;
            }
        }
    }
    true
}

/// The nanoseconds of the interval that a text writes, if it writes one that keeps to the
/// range of a duration: what its numbers come to, each with its unit.
pub open spec fn readable_interval(text: Seq<char>) -> Option<u128> {
    if interval_in_range(text) && interval_nanos(text) is Some {
        Some(written_nanos(text, Numeral::unread()) as u128)
    } else {
        None
    }
}

/// Reads an interval, and gives its nanoseconds.
pub fn read_interval(text: &str) -> (nanos: Option<u128>)
    ensures
        nanos == readable_interval(text@),
        interval_in_range(text@) ==> nanos == interval_nanos(text@),
{
    if interval_fits(text) {
        parse_interval(text)
    } else {
        None
    }
}

/// `c` is neither part of a number nor white space.
pub open spec fn is_letter(c: char) -> bool {
    !is_digit(c) && !white_space(c) && c != '.'
}

/// Letters without a number in front come to nothing.
proof fn lemma_bare_letters(s: Seq<char>)
    requires
        forall|i: int| 0 <= i < s.len() ==> is_letter(#[trigger] s[i]),
    ensures
        written_nanos(s, Numeral::unread()) == 0,
    decreases s.len(),
{
    if s.len() > 0 {
        let rest = s.drop_first();
        assert forall|i: int| 0 <= i < rest.len() implies is_letter(#[trigger] rest[i]) by {
            assert(rest[i] == s[i + 1]);
        }
        lemma_bare_letters(rest);
        assert(is_letter(s[0]));
        assert(0 * unit_nanos(s) == 0) by (nonlinear_arith);
    }
}

/// Digits are read as the number that they write.
pub proof fn lemma_digits_are_read(digits: Seq<char>, tail: Seq<char>)
    requires
        all_digits(digits),
        number(digits) <= u64::MAX,
    ensures
        written_nanos(digits + tail, Numeral::unread()) == written_nanos(
            tail,
            Numeral { whole: number(digits), ..Numeral::unread() },
        ),
    decreases digits.len(),
{
    if digits.len() == 0 {
        assert(digits + tail =~= tail);
    } else {
        let c = digits.last();
        let fewer = digits.drop_last();
        assert forall|i: int| 0 <= i < fewer.len() implies is_digit(#[trigger] fewer[i]) by {
            assert(fewer[i] == digits[i]);
        }
        assert(is_digit(digits[digits.len() - 1]));
        lemma_digits_are_read(fewer, seq![c] + tail);
        assert(fewer + (seq![c] + tail) =~= digits + tail);
        assert((seq![c] + tail).drop_first() =~= tail);
        assert((seq![c] + tail)[0] == c);
    }
}

/// An interval of one number and one unit comes to so many of that unit.
pub proof fn law_one_unit(n: u64, unit: Seq<char>)
    requires
        unit.len() > 0,
        forall|i: int| 0 <= i < unit.len() ==> is_letter(#[trigger] unit[i]),
    ensures
        written_nanos(decimal(n as nat) + unit, Numeral::unread()) == n * unit_nanos(unit),
{
    law_decimal_round_trip(n as nat);
    lemma_digits_are_read(decimal(n as nat), unit);
    let rest = unit.drop_first();
    assert forall|i: int| 0 <= i < rest.len() implies is_letter(#[trigger] rest[i]) by {
        assert(rest[i] == unit[i + 1]);
    }
    lemma_bare_letters(rest);
    assert(is_letter(unit[0]));
    assert(0 * unit_nanos(unit) == 0) by (nonlinear_arith);
}

} // verus!
