//! What numbers with units stand for.

use super::value::{leading_digits, seconds, size_bytes, size_unit, DurationFault};
use crate::text::{all_digits, decimal, is_digit, lemma_decimal, without_plus};
use vstd::prelude::*;

verus! {

/// A number without a unit is a number of seconds.
pub proof fn lemma_bare_number_is_seconds(n: nat)
    ensures
        seconds(decimal(n)) == Ok::<nat, DurationFault>(n),
{
    lemma_decimal(n);
    lemma_leading(decimal(n), Seq::empty());
    assert(decimal(n) + Seq::<char>::empty() =~= decimal(n));
}

/// A minute has 60 seconds, an hour 60 minutes, a day 24 hours and a week 7
/// days; a duration is the sum of its parts.
pub proof fn lemma_units_of_time(n: nat, unit: char, rest: Seq<char>)
    ensures
        ({
            let all = seconds(decimal(n) + seq![unit] + rest);
            let each: nat = if unit == 's' || unit == 'S' {
                1
            } else if unit == 'm' || unit == 'M' {
                60
            } else if unit == 'h' || unit == 'H' {
                60 * 60
            } else if unit == 'd' || unit == 'D' {
                24 * 60 * 60
            } else if unit == 'w' || unit == 'W' {
                7 * 24 * 60 * 60
            } else {
                0
            };
            &&& each > 0 ==> match seconds(rest) {
                Ok(more) => all == Ok::<nat, DurationFault>(n * each + more),
                Err(e) => all == Err::<nat, DurationFault>(e),
            }
            &&& each == 0 && !is_digit(unit) ==> all is Err
        }),
{
    let d = decimal(n);
    let s = d + seq![unit] + rest;
    lemma_decimal(n);
    if !is_digit(unit) {
        lemma_leading(d, seq![unit] + rest);
        assert(s =~= d + (seq![unit] + rest));
        assert(s.take(d.len() as int) =~= d);
        assert(s.skip(d.len() as int + 1) =~= rest);
        assert(s[d.len() as int] == unit);
    }
}

/// A kilobyte has 1024 bytes, a megabyte 1024 kilobytes and a gigabyte 1024
/// megabytes; a number without a unit is a number of bytes.
pub proof fn lemma_units_of_size(n: nat, unit: char)
    ensures
        n <= u64::MAX ==> size_bytes(decimal(n)) == Some(n as u64),
        ({
            let each: nat = if unit == 'k' || unit == 'K' {
                1024
            } else if unit == 'm' || unit == 'M' {
                1024 * 1024
            } else if unit == 'g' || unit == 'G' {
                1024 * 1024 * 1024
            } else {
                0
            };
            &&& each > 0 && n * each <= u64::MAX ==> size_bytes(decimal(n) + seq![unit]) == Some(
                (n * each) as u64,
            )
            &&& each > 0 && n * each > u64::MAX ==> size_bytes(decimal(n) + seq![unit]) is None
            &&& each == 0 && !is_digit(unit) ==> size_bytes(decimal(n) + seq![unit]) is None
        }),
{
    let d = decimal(n);
    lemma_decimal(n);
    assert(is_digit(d[0]));
    assert(is_digit(d[d.len() - 1]));
    assert(without_plus(d) =~= d);
    let s = d + seq![unit];
    assert(s.drop_last() =~= d);
    assert(s.last() == unit);
    assert(n * 1024 >= n && n * 0x10_0000 >= n && n * 0x4000_0000 >= n);
    if unit == 'k' || unit == 'K' {
        assert(size_unit(unit) == Some(1024nat));
    } else if unit == 'm' || unit == 'M' {
        assert(size_unit(unit) == Some(0x10_0000nat));
    } else if unit == 'g' || unit == 'G' {
        assert(size_unit(unit) == Some(0x4000_0000nat));
    }
}

proof fn lemma_leading(d: Seq<char>, tail: Seq<char>)
    requires
        all_digits(d),
        tail.len() == 0 || !is_digit(tail[0]),
    ensures
        leading_digits(d + tail) == d.len(),
    decreases d.len(),
{
    let s = d + tail;
    if d.len() == 0 {
        assert(s =~= tail);
    } else {
        assert(is_digit(d[0]));
        assert(s.skip(1) =~= d.skip(1) + tail);
        assert forall|i: int| 0 <= i < d.skip(1).len() implies is_digit(#[trigger] d.skip(1)[i]) by {
            assert(d.skip(1)[i] == d[i + 1]);
        }
        lemma_leading(d.skip(1), tail);
    }
}

} // verus!
