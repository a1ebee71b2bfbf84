//! How long an interval is.

use crate::interval::{
    is_letter, law_one_unit, lemma_digits_are_read, readable_interval, unit_nanos, written_nanos,
    Numeral,
};
use crate::text::{decimal, law_decimal_round_trip, white_space};
use crate::trusted::interval_nanos;
use vstd::prelude::*;

verus! {

/// The units of time, by all of their names, in nanoseconds.
pub proof fn law_units()
    ensures
        unit_nanos("nanos"@) == 1,
        unit_nanos("nsec"@) == 1,
        unit_nanos("ns"@) == 1,
        unit_nanos("usec"@) == 1_000,
        unit_nanos("us"@) == 1_000,
        unit_nanos("\u{b5}s"@) == 1_000,
        unit_nanos("millis"@) == 1_000_000,
        unit_nanos("msec"@) == 1_000_000,
        unit_nanos("ms"@) == 1_000_000,
        unit_nanos("seconds"@) == 1_000_000_000,
        unit_nanos("second"@) == 1_000_000_000,
        unit_nanos("secs"@) == 1_000_000_000,
        unit_nanos("sec"@) == 1_000_000_000,
        unit_nanos("s"@) == 1_000_000_000,
        unit_nanos("minutes"@) == 60_000_000_000,
        unit_nanos("minute"@) == 60_000_000_000,
        unit_nanos("min"@) == 60_000_000_000,
        unit_nanos("mins"@) == 60_000_000_000,
        unit_nanos("m"@) == 60_000_000_000,
        unit_nanos("hours"@) == 3_600_000_000_000,
        unit_nanos("hour"@) == 3_600_000_000_000,
        unit_nanos("hr"@) == 3_600_000_000_000,
        unit_nanos("hrs"@) == 3_600_000_000_000,
        unit_nanos("h"@) == 3_600_000_000_000,
        unit_nanos("days"@) == 86_400_000_000_000,
        unit_nanos("day"@) == 86_400_000_000_000,
        unit_nanos("d"@) == 86_400_000_000_000,
        unit_nanos("weeks"@) == 604_800_000_000_000,
        unit_nanos("week"@) == 604_800_000_000_000,
        unit_nanos("wk"@) == 604_800_000_000_000,
        unit_nanos("wks"@) == 604_800_000_000_000,
        unit_nanos("w"@) == 604_800_000_000_000,
        unit_nanos("months"@) == 2_630_016_000_000_000,
        unit_nanos("month"@) == 2_630_016_000_000_000,
        unit_nanos("M"@) == 2_630_016_000_000_000,
        unit_nanos("years"@) == 31_557_600_000_000_000,
        unit_nanos("year"@) == 31_557_600_000_000_000,
        unit_nanos("yr"@) == 31_557_600_000_000_000,
        unit_nanos("yrs"@) == 31_557_600_000_000_000,
        unit_nanos("y"@) == 31_557_600_000_000_000,
{
    reveal_strlit("nanos");
    reveal_strlit("nsec");
    reveal_strlit("ns");
    reveal_strlit("usec");
    reveal_strlit("us");
    reveal_strlit("\u{b5}s");
    reveal_strlit("millis");
    reveal_strlit("msec");
    reveal_strlit("ms");
    reveal_strlit("seconds");
    reveal_strlit("second");
    reveal_strlit("secs");
    reveal_strlit("sec");
    reveal_strlit("s");
    reveal_strlit("minutes");
    reveal_strlit("minute");
    reveal_strlit("min");
    reveal_strlit("mins");
    reveal_strlit("m");
    reveal_strlit("hours");
    reveal_strlit("hour");
    reveal_strlit("hr");
    reveal_strlit("hrs");
    reveal_strlit("h");
    reveal_strlit("days");
    reveal_strlit("day");
    reveal_strlit("d");
    reveal_strlit("weeks");
    reveal_strlit("week");
    reveal_strlit("wk");
    reveal_strlit("wks");
    reveal_strlit("w");
    reveal_strlit("months");
    reveal_strlit("month");
    reveal_strlit("M");
    reveal_strlit("years");
    reveal_strlit("year");
    reveal_strlit("yr");
    reveal_strlit("yrs");
    reveal_strlit("y");
}

/// An interval that can be read is as long as its number says, in its unit.
pub proof fn law_length(n: u64, unit: Seq<char>)
    requires
        unit.len() > 0,
        forall|i: int| 0 <= i < unit.len() ==> is_letter(#[trigger] unit[i]),
    ensures
        readable_interval(decimal(n as nat) + unit) is Some <==> interval_nanos(
            decimal(n as nat) + unit,
        ) is Some && n * unit_nanos(unit) < 18_446_744_073_709_551_616_000_000_000,
        readable_interval(decimal(n as nat) + unit) matches Some(nanos) ==> nanos == n * unit_nanos(
            unit,
        ),
{
    law_one_unit(n, unit);
}

/// An interval of several numbers is as long as all of them together.
pub proof fn law_lengths_add_up(n: u64, unit: Seq<char>, c: char, rest: Seq<char>)
    requires
        unit.len() > 0,
        forall|i: int| 0 <= i < unit.len() ==> is_letter(#[trigger] unit[i]),
        white_space(c),
    ensures
        written_nanos(decimal(n as nat) + (unit + (seq![c] + rest)), Numeral::unread()) == n
            * unit_nanos(unit) + written_nanos(rest, Numeral::unread()),
{
    let tail = seq![c] + rest;
    let text = unit + tail;
    law_decimal_round_trip(n as nat);
    lemma_digits_are_read(decimal(n as nat), text);
    assert(text[0] == unit[0]);
    assert(is_letter(unit[0]));
    assert(unit_nanos(text) == unit_nanos(unit)) by {
        if unit.len() == 1 {
            assert(text[1] == c);
        } else {
            assert(text[1] == unit[1]);
            if unit.len() == 2 {
                assert(text[2] == c);
            } else {
                assert(text[2] == unit[2]);
            }
        }
    }
    assert(0 * unit_nanos(unit) == 0) by (nonlinear_arith);
    assert(text.drop_first() =~= unit.drop_first() + tail);
    lemma_letters_then(unit.drop_first(), c, rest);
}

/// Letters without a number in front, and the white space behind them, come to nothing.
proof fn lemma_letters_then(letters: Seq<char>, c: char, rest: Seq<char>)
    requires
        forall|i: int| 0 <= i < letters.len() ==> is_letter(#[trigger] letters[i]),
        white_space(c),
    ensures
        written_nanos(letters + (seq![c] + rest), Numeral::unread()) == written_nanos(
            rest,
            Numeral::unread(),
        ),
    decreases letters.len(),
{
    let text = letters + (seq![c] + rest);
    if letters.len() == 0 {
        assert(text[0] == c);
        assert(text.drop_first() =~= rest);
    } else {
        assert(text[0] == letters[0]);
        assert(is_letter(letters[0]));
        let fewer = letters.drop_first();
        assert forall|i: int| 0 <= i < fewer.len() implies is_letter(#[trigger] fewer[i]) by {
            assert(fewer[i] == letters[i + 1]);
        }
        assert(text.drop_first() =~= fewer + (seq![c] + rest));
        lemma_letters_then(fewer, c, rest);
        assert(0 * unit_nanos(text) == 0) by (nonlinear_arith);
    }
}

/// A text that no interval is made of, or one that comes to 2^64 seconds or more, cannot be
/// read. Any other is as long as it writes.
pub proof fn law_readable(text: Seq<char>)
    ensures
        readable_interval(text) is Some <==> interval_nanos(text) is Some && written_nanos(
            text,
            Numeral::unread(),
        ) < 18_446_744_073_709_551_616_000_000_000,
        readable_interval(text) matches Some(nanos) ==> nanos == written_nanos(
            text,
            Numeral::unread(),
        ),
{
}

} // verus!
