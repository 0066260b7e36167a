//! Values that both configuration files know: single words, ports, switches,
//! log levels, integers, durations and sizes.

use super::parser::{ParsedLine, ParsedLineView};
use super::{bad_value, with_quoted, ConfigError, ConfigErrorView};
use crate::text::{
    all_digits, chars_of, concat, debug_quoted, decimal, decimal_string, digits_value, is_digit,
    lower, lower_text, opt_view, parse_number, parse_unsigned, str_eq, to_lower, to_upper,
    upper_text, views,
};
use vstd::prelude::*;

verus! {

/// A complaint about the value on a line.
pub open spec fn line_error(line: ParsedLineView, msg: Seq<char>) -> ConfigErrorView {
    ConfigErrorView::BadValue { line: line.line_no, keyword: line.keyword, msg }
}

/// The complaint about a value that is none of those expected.
pub open spec fn unexpected(line: ParsedLineView, expected: Seq<char>, got: Seq<char>) -> ConfigErrorView {
    line_error(line, expected + debug_quoted(got))
}

/// The one word on a line.
pub open spec fn one_value(line: ParsedLineView) -> Result<Seq<char>, ConfigErrorView> {
    if line.args.len() == 1 {
        Ok(line.args[0])
    } else {
        Err(line_error(line, "expected 1 value, got "@ + decimal(line.args.len())))
    }
}

/// The one word on a line, in lower case.
pub open spec fn lower_value(line: ParsedLineView) -> Result<Seq<char>, ConfigErrorView> {
    match one_value(line) {
        Ok(s) => Ok(lower_text(s)),
        Err(e) => Err(e),
    }
}

/// The port number on a line.
pub open spec fn port_value(line: ParsedLineView) -> Result<u16, ConfigErrorView> {
    match one_value(line) {
        Err(e) => Err(e),
        Ok(s) => match parse_unsigned(s, 65535) {
            Some(v) => Ok(v as u16),
            None => Err(unexpected(line, "expected a port number, got "@, s)),
        },
    }
}

/// The integer on a line.
pub open spec fn integer_value(line: ParsedLineView) -> Result<u32, ConfigErrorView> {
    match one_value(line) {
        Err(e) => Err(e),
        Ok(s) => match parse_unsigned(s, 0xffff_ffff) {
            Some(v) => Ok(v as u32),
            None => Err(unexpected(line, "expected an integer, got "@, s)),
        },
    }
}

/// The switch on a line.
pub open spec fn switch_value(line: ParsedLineView) -> Result<bool, ConfigErrorView> {
    match lower_value(line) {
        Err(e) => Err(e),
        Ok(s) => if s == "yes"@ || s == "true"@ || s == "on"@ {
            Ok(true)
        } else if s == "no"@ || s == "false"@ || s == "off"@ {
            Ok(false)
        } else {
            Err(unexpected(line, "expected yes/no, got "@, s))
        },
    }
}

/// The log level on a line: 0 for `QUIET` to `INFO`, 1 for `VERBOSE` and
/// `DEBUG1`, then 2 and 3.
pub open spec fn log_level_value(line: ParsedLineView) -> Result<u8, ConfigErrorView> {
    match one_value(line) {
        Err(e) => Err(e),
        Ok(word) => {
            let s = upper_text(word);
            if s == "QUIET"@ || s == "FATAL"@ || s == "ERROR"@ || s == "INFO"@ {
                Ok(0)
            } else if s == "VERBOSE"@ || s == "DEBUG"@ || s == "DEBUG1"@ {
                Ok(1)
            } else if s == "DEBUG2"@ {
                Ok(2)
            } else if s == "DEBUG3"@ {
                Ok(3)
            } else {
                Err(unexpected(line, "expected QUIET..DEBUG3, got "@, s))
            }
        },
    }
}

/// How many digits a text starts with.
pub open spec fn leading_digits(s: Seq<char>) -> nat
    decreases s.len(),
{
    if s.len() > 0 && is_digit(s[0]) {
        1 + leading_digits(s.skip(1))
    } else {
        0
    }
}

/// How many seconds a unit of time has.
pub open spec fn unit_seconds(c: char) -> Option<nat> {
    if lower(c) == 's' {
        Some(1)
    } else if lower(c) == 'm' {
        Some(60)
    } else if lower(c) == 'h' {
        Some(3600)
    } else if lower(c) == 'd' {
        Some(86400)
    } else if lower(c) == 'w' {
        Some(604800)
    } else {
        None
    }
}

/// What is wrong with a duration.
pub ghost enum DurationFault {
    BadUnit,
    NoNumber,
}

/// The seconds in a duration: numbers with units after them, where the last
/// number may go without and then means seconds.
pub open spec fn seconds(s: Seq<char>) -> Result<nat, DurationFault>
    decreases s.len(),
{
    let n = leading_digits(s) as int;
    if n >= s.len() {
        Ok(digits_value(s))
    } else {
        match unit_seconds(s[n]) {
            None => Err(DurationFault::BadUnit),
            Some(unit) => if n == 0 {
                Err(DurationFault::NoNumber)
            } else {
                match seconds(s.skip(n + 1)) {
                    Err(f) => Err(f),
                    Ok(rest) => Ok(digits_value(s.take(n)) * unit + rest),
                }
            },
        }
    }
}

/// The duration that a text on a line names, in seconds.
pub open spec fn duration(s: Seq<char>, line: ParsedLineView) -> Result<u32, ConfigErrorView> {
    match seconds(s) {
        Err(DurationFault::BadUnit) => Err(unexpected(line, "bad duration unit in "@, s)),
        Err(DurationFault::NoNumber) => Err(unexpected(line, "missing number before unit in "@, s)),
        Ok(v) => if v <= u32::MAX {
            Ok(v as u32)
        } else {
            Err(unexpected(line, "duration overflows u32 seconds: "@, s))
        },
    }
}

/// The duration on a line, in seconds.
pub open spec fn duration_value(line: ParsedLineView) -> Result<u32, ConfigErrorView> {
    match one_value(line) {
        Err(e) => Err(e),
        Ok(s) => duration(s, line),
    }
}

/// How many bytes a size suffix stands for, if it is one.
pub open spec fn size_unit(c: char) -> Option<nat> {
    if lower(c) == 'k' {
        Some(1024)
    } else if lower(c) == 'm' {
        Some(0x10_0000)
    } else if lower(c) == 'g' {
        Some(0x4000_0000)
    } else {
        None
    }
}

/// The bytes that a size names: a number, with an optional suffix.
pub open spec fn size_bytes(s: Seq<char>) -> Option<u64> {
    if s.len() == 0 {
        None
    } else {
        match size_unit(s.last()) {
            Some(unit) => match parse_unsigned(s.drop_last(), u64::MAX as nat) {
                Some(n) => if n * unit <= u64::MAX {
                    Some((n * unit) as u64)
                } else {
                    None
                },
                None => None,
            },
            None => if is_digit(s.last()) {
                match parse_unsigned(s, u64::MAX as nat) {
                    Some(n) => Some(n as u64),
                    None => None,
                }
            } else {
                None
            },
        }
    }
}

/// A complaint about the value on a line.
pub(crate) fn complain(line: &ParsedLine, msg: String) -> (e: ConfigError)
    ensures
        e@ == line_error(line@, msg@),
{
    bad_value(line.line_no, line.keyword.as_str(), msg)
}

/// The complaint about a value that is none of those expected.
pub(crate) fn complain_of(line: &ParsedLine, expected: &str, got: &str) -> (e: ConfigError)
    ensures
        e@ == unexpected(line@, expected@, got@),
{
    complain(line, with_quoted(expected, got))
}

/// The one word on a line.
pub(crate) fn one_arg(line: &ParsedLine) -> (r: Result<String, ConfigError>)
    ensures
        match one_value(line@) {
            Ok(s) => r matches Ok(v) && v@ == s,
            Err(e) => r matches Err(x) && x@ == e,
        },
{
    if line.args.len() != 1 {
        return Err(
            complain(
                line,
                concat("expected 1 value, got ", decimal_string(line.args.len()).as_str()),
            ),
        );
    }
    Ok(line.args[0].clone())
}

/// The one word on a line, in lower case.
pub(crate) fn one_arg_lower(line: &ParsedLine) -> (r: Result<String, ConfigError>)
    ensures
        match lower_value(line@) {
            Ok(s) => r matches Ok(v) && v@ == s,
            Err(e) => r matches Err(x) && x@ == e,
        },
{
    match one_arg(line) {
        Ok(s) => Ok(to_lower(s.as_str())),
        Err(e) => Err(e),
    }
}

/// The port number on a line.
pub(crate) fn parse_u16(line: &ParsedLine) -> (r: Result<u16, ConfigError>)
    ensures
        match port_value(line@) {
            Ok(p) => r matches Ok(v) && v == p,
            Err(e) => r matches Err(x) && x@ == e,
        },
{
    let s = one_arg(line)?;
    match parse_number(chars_of(s.as_str()).as_slice(), 65535) {
        Some(v) => Ok(v as u16),
        None => Err(complain_of(line, "expected a port number, got ", s.as_str())),
    }
}

/// The integer on a line.
pub(crate) fn parse_u32(line: &ParsedLine) -> (r: Result<u32, ConfigError>)
    ensures
        match integer_value(line@) {
            Ok(p) => r matches Ok(v) && v == p,
            Err(e) => r matches Err(x) && x@ == e,
        },
{
    let s = one_arg(line)?;
    match parse_number(chars_of(s.as_str()).as_slice(), 0xffff_ffff) {
        Some(v) => Ok(v as u32),
        None => Err(complain_of(line, "expected an integer, got ", s.as_str())),
    }
}

/// The switch on a line.
pub(crate) fn parse_yes_no(line: &ParsedLine) -> (r: Result<bool, ConfigError>)
    ensures
        match switch_value(line@) {
            Ok(p) => r matches Ok(v) && v == p,
            Err(e) => r matches Err(x) && x@ == e,
        },
{
    let word = one_arg_lower(line)?;
    let s = word.as_str();
    if str_eq(s, "yes") || str_eq(s, "true") || str_eq(s, "on") {
        Ok(true)
    } else if str_eq(s, "no") || str_eq(s, "false") || str_eq(s, "off") {
        Ok(false)
    } else {
        Err(complain_of(line, "expected yes/no, got ", s))
    }
}

/// The log level on a line.
pub(crate) fn parse_log_level(line: &ParsedLine) -> (r: Result<u8, ConfigError>)
    ensures
        match log_level_value(line@) {
            Ok(p) => r matches Ok(v) && v == p,
            Err(e) => r matches Err(x) && x@ == e,
        },
{
    let word = to_upper(one_arg(line)?.as_str());
    let s = word.as_str();
    if str_eq(s, "QUIET") || str_eq(s, "FATAL") || str_eq(s, "ERROR") || str_eq(s, "INFO") {
        Ok(0)
    } else if str_eq(s, "VERBOSE") || str_eq(s, "DEBUG") || str_eq(s, "DEBUG1") {
        Ok(1)
    } else if str_eq(s, "DEBUG2") {
        Ok(2)
    } else if str_eq(s, "DEBUG3") {
        Ok(3)
    } else {
        Err(complain_of(line, "expected QUIET..DEBUG3, got ", s))
    }
}

/// Whether a counter that stops at its largest value stands for a number.
spec fn counts(x: u64, v: nat) -> bool {
    x == v || (x == u64::MAX && v >= u64::MAX)
}

/// A counter after one more digit.
fn shift_digit(acc: u64, digit: u64, Ghost(v): Ghost<nat>) -> (r: u64)
    requires
        counts(acc, v),
        digit < 10,
    ensures
        counts(r, v * 10 + digit as nat),
{
    match acc.checked_mul(10) {
        Some(x) => x.saturating_add(digit),
        None => u64::MAX,
    }
}

/// A counter after a number of units was added.
fn add_units(total: u64, acc: u64, unit: u64, Ghost(t): Ghost<nat>, Ghost(v): Ghost<nat>) -> (r:
    u64)
    requires
        counts(total, t),
        counts(acc, v),
        0 < unit,
    ensures
        counts(r, t + v * unit as nat),
{
    match acc.checked_mul(unit) {
        Some(x) => {
            proof {
                if acc == u64::MAX {
                    assert(v * unit as nat >= u64::MAX) by (nonlinear_arith)
                        requires
                            v >= u64::MAX,
                            unit > 0,
                    ;
                }
            }
            total.saturating_add(x)
        },
        None => {
            assert(v * unit as nat >= acc * unit) by (nonlinear_arith)
                requires
                    v >= acc,
            ;
            u64::MAX
        },
    }
}

/// The seconds of a unit of time, or 0 where it is none.
fn seconds_of(c: char) -> (r: u64)
    ensures
        match unit_seconds(c) {
            Some(n) => r == n && r > 0,
            None => r == 0,
        },
{
    if c == 's' || c == 'S' {
        1
    } else if c == 'm' || c == 'M' {
        60
    } else if c == 'h' || c == 'H' {
        3600
    } else if c == 'd' || c == 'D' {
        86400
    } else if c == 'w' || c == 'W' {
        604800
    } else {
        0
    }
}

/// The leading digits are digits, and what follows them is none.
proof fn lemma_leading_digits(s: Seq<char>)
    ensures
        leading_digits(s) <= s.len(),
        all_digits(s.take(leading_digits(s) as int)),
        leading_digits(s) < s.len() ==> !is_digit(s[leading_digits(s) as int]),
    decreases s.len(),
{
    if s.len() > 0 && is_digit(s[0]) {
        lemma_leading_digits(s.skip(1));
        let n = leading_digits(s) as int;
        assert forall|i: int| 0 <= i < n implies is_digit(#[trigger] s.take(n)[i]) by {
            if i > 0 {
                assert(s.skip(1).take(n - 1)[i - 1] == s.take(n)[i]);
            }
        }
    }
}

/// Parse a duration, such as `30s`, `5m`, `2h` or `1m30s`, or a bare number of
/// seconds.
pub(crate) fn parse_duration_str(s: &str, line: &ParsedLine) -> (r: Result<u32, ConfigError>)
    ensures
        match duration(s@, line@) {
            Ok(p) => r matches Ok(v) && v == p,
            Err(e) => r matches Err(x) && x@ == e,
        },
{
    let cs = chars_of(s);
    let mut total: u64 = 0;
    let mut i: usize = 0;
    let ghost mut t: nat = 0;
    assert(cs@.skip(0) =~= cs@);
    while i < cs.len()
        invariant
            i <= cs.len(),
            cs@ == s@,
            counts(total, t),
            match seconds(cs@.skip(i as int)) {
                Ok(rest) => seconds(s@) == Ok::<nat, DurationFault>(t + rest),
                Err(f) => seconds(s@) == Err::<nat, DurationFault>(f),
            },
        decreases cs.len() - i,
    {
        let start: usize = i;
        let ghost rest = cs@.skip(start as int);
        let ghost n = leading_digits(rest) as int;
        proof {
            lemma_leading_digits(rest);
        }
        let mut acc: u64 = 0;
        assert(rest.take(0) =~= Seq::<char>::empty());
        while i < cs.len() && '0' <= cs[i] && cs[i] <= '9'
            invariant
                start <= i <= cs.len(),
                rest == cs@.skip(start as int),
                n == leading_digits(rest),
                0 <= n <= rest.len(),
                all_digits(rest.take(n)),
                n < rest.len() ==> !is_digit(rest[n]),
                i - start <= n,
                counts(acc, digits_value(rest.take(i - start))),
            decreases cs.len() - i,
        {
            let ghost k = i - start;
            assert(rest[k] == cs@[i as int]);
            assert(k < n);
            assert(rest.take(k + 1).drop_last() =~= rest.take(k));
            acc = shift_digit(
                acc,
                (cs[i] as u32 - '0' as u32) as u64,
                Ghost(digits_value(rest.take(k))),
            );
            i += 1;
        }
        proof {
            let k = i - start;
            if k < n {
                assert(rest.take(n)[k] == rest[k]);
                assert(rest[k] == cs@[i as int]);
            }
        }
        if i == cs.len() {
            assert(rest.take(n) =~= rest);
            total = add_units(total, acc, 1, Ghost(t), Ghost(digits_value(rest)));
            proof {
                t = t + digits_value(rest);
                assert(cs@.skip(i as int) =~= Seq::<char>::empty());
                assert(seconds(Seq::<char>::empty()) == Ok::<nat, DurationFault>(0));
            }
        } else {
            assert(rest[n] == cs@[i as int]);
            let unit = seconds_of(cs[i]);
            if unit == 0 {
                return Err(complain_of(line, "bad duration unit in ", s));
            }
            if i == start {
                return Err(complain_of(line, "missing number before unit in ", s));
            }
            total = add_units(total, acc, unit, Ghost(t), Ghost(digits_value(rest.take(n))));
            proof {
                t = t + digits_value(rest.take(n)) * unit as nat;
                assert(rest.skip(n + 1) =~= cs@.skip(i + 1));
            }
            i += 1;
        }
    }
    assert(cs@.skip(i as int) =~= Seq::<char>::empty());
    assert(seconds(Seq::<char>::empty()) == Ok::<nat, DurationFault>(0));
    if total > 0xffff_ffff {
        return Err(complain_of(line, "duration overflows u32 seconds: ", s));
    }
    Ok(total as u32)
}

/// The duration on a line, in seconds.
pub(crate) fn parse_duration_seconds(line: &ParsedLine) -> (r: Result<u32, ConfigError>)
    ensures
        match duration_value(line@) {
            Ok(p) => r matches Ok(v) && v == p,
            Err(e) => r matches Err(x) && x@ == e,
        },
{
    let s = one_arg(line)?;
    parse_duration_str(s.as_str(), line)
}

/// Parse a size with an optional `K`, `M` or `G` suffix.
pub(crate) fn parse_size(s: &[char]) -> (r: Option<u64>)
    ensures
        r == size_bytes(s@),
{
    if s.len() == 0 {
        return None;
    }
    let last = s[s.len() - 1];
    let unit: u64 = if last == 'k' || last == 'K' {
        1024
    } else if last == 'm' || last == 'M' {
        0x10_0000
    } else if last == 'g' || last == 'G' {
        0x4000_0000
    } else if '0' <= last && last <= '9' {
        1
    } else {
        return None;
    };
    if unit == 1 {
        return parse_number(s, u64::MAX);
    }
    let digits = vstd::slice::slice_subrange(s, 0, s.len() - 1);
    assert(digits@ =~= s@.drop_last());
    match parse_number(digits, u64::MAX) {
        Some(n) => n.checked_mul(unit),
        None => None,
    }
}

/// The first of two values that is set.
pub open spec fn first_set<T>(a: Option<T>, b: Option<T>) -> Option<T> {
    if a is Some {
        a
    } else {
        b
    }
}

/// Add a word to a list.
pub(crate) fn push_word(list: &mut Vec<String>, word: String)
    ensures
        views(final(list)@) == views(old(list)@).push(word@),
{
    list.push(word);
    assert(views(list@) =~= views(old(list)@).push(word@));
}

/// Add words to a list.
pub(crate) fn append_words(list: &mut Vec<String>, words: &[String])
    ensures
        views(final(list)@) == views(old(list)@) + views(words@),
{
    let mut i: usize = 0;
    assert(views(words@).take(0) =~= Seq::<Seq<char>>::empty());
    assert(views(list@) + Seq::<Seq<char>>::empty() =~= views(list@));
    while i < words.len()
        invariant
            i <= words.len(),
            views(list@) == views(old(list)@) + views(words@).take(i as int),
        decreases words.len() - i,
    {
        let ghost before = views(list@);
        push_word(list, words[i].clone());
        assert(before.push(words@[i as int]@) =~= views(old(list)@) + views(words@).take(i + 1));
        i += 1;
    }
    assert(views(words@).take(i as int) =~= views(words@));
}

/// The first of two values that is set.
pub(crate) fn pick<T: Copy>(a: Option<T>, b: Option<T>) -> (r: Option<T>)
    ensures
        r == first_set(a, b),
{
    if a.is_some() {
        a
    } else {
        b
    }
}

/// The first of two strings that is set.
pub(crate) fn pick_text(a: Option<String>, b: &Option<String>) -> (r: Option<String>)
    ensures
        opt_view(r) == first_set(opt_view(a), opt_view(*b)),
{
    if a.is_some() {
        a
    } else {
        b.clone()
    }
}

/// Two lists joined.
pub(crate) fn joined(mut a: Vec<String>, b: &Vec<String>) -> (r: Vec<String>)
    ensures
        views(r@) == views(a@) + views(b@),
{
    append_words(&mut a, b.as_slice());
    a
}

} // verus!
