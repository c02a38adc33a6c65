//! Durations on the command line: a whole number and a unit, such as `30s`,
//! `5m`, `2h` or `1d`, and back.
use vstd::prelude::*;

use vstd::string::{StrSliceExecFns, StringExecFns};

use crate::text::{lemma_trimmed_unchanged, trim, trimmed};
use crate::time::Duration;

verus! {

/// The `Debug` form of a string: quoted, with special characters escaped.
pub uninterp spec fn debug_quoted(s: Seq<char>) -> Seq<char>;

/// An ASCII letter or digit (none of which is whitespace).
pub open spec fn is_ascii_alphanumeric(c: char) -> bool {
    ('0' <= c && c <= '9') || ('a' <= c && c <= 'z') || ('A' <= c && c <= 'Z')
}

/// `format!("{:?}", s)`: the `Debug` form of a string.
#[verifier::external_body]
pub(crate) fn quoted(s: &str) -> (r: String)
    ensures
        r@ == debug_quoted(s@),
{
    format!("{:?}", s)
}

/// `String::push`: the string with one more character at its end.
#[verifier::external_body]
pub(crate) fn push_char(s: &mut String, c: char)
    ensures
        final(s)@ == old(s)@.push(c),
{
    s.push(c)
}

/// An ASCII digit.
pub open spec fn is_digit(c: char) -> bool {
    '0' <= c && c <= '9'
}

/// The value of an ASCII digit.
pub open spec fn digit_value(c: char) -> nat {
    (c as u32 - '0' as u32) as nat
}

/// A whole number from one on, written with one of the units `s`, `m`, `h`
/// and `d`, is read as that many seconds, minutes of 60 seconds, hours of
/// 3600 seconds or days of 86400 seconds, as long as that fits in 64 bits.
pub proof fn law_units_are_read_as_seconds(n: nat, unit: char)
    requires
        1 <= n,
        unit == 's' || unit == 'm' || unit == 'h' || unit == 'd',
        n * (if unit == 's' {
            1nat
        } else if unit == 'm' {
            60nat
        } else if unit == 'h' {
            3600nat
        } else {
            86400nat
        }) <= u64::MAX,
    ensures
        duration_seconds(decimal_text(n).push(unit)) == Ok::<nat, DurationFault>(
            n * (if unit == 's' {
                1nat
            } else if unit == 'm' {
                60nat
            } else if unit == 'h' {
                3600nat
            } else {
                86400nat
            }),
        ),
{
    let u: nat = if unit == 's' {
        1nat
    } else if unit == 'm' {
        60nat
    } else if unit == 'h' {
        3600nat
    } else {
        86400nat
    };
    let text = decimal_text(n);
    let t = text.push(unit);
    lemma_decimal_text(n);
    assert forall|i: int| 0 <= i < text.len() implies is_digit(#[trigger] t[i]) by {
        assert(t[i] == text[i]);
    }
    lemma_leading_digits_exact(t, text.len() as int);
    assert(t.take(text.len() as int) =~= text);
    assert(t.skip(text.len() as int) =~= seq![unit]);
    lemma_unit_of(unit);
    assert(n <= n * u && n * u >= 1) by (nonlinear_arith)
        requires
            n >= 1,
            u >= 1,
    ;
}

/// The digit of a value below ten.
pub open spec fn digit_of(d: nat) -> char {
    if d == 0 { '0' }
    else if d == 1 { '1' }
    else if d == 2 { '2' }
    else if d == 3 { '3' }
    else if d == 4 { '4' }
    else if d == 5 { '5' }
    else if d == 6 { '6' }
    else if d == 7 { '7' }
    else if d == 8 { '8' }
    else { '9' }
}

/// The number of ASCII digits at the start of `s`.
pub open spec fn leading_digits(s: Seq<char>) -> nat
    decreases s.len(),
{
    if s.len() == 0 || !is_digit(s[0]) {
        0
    } else {
        1 + leading_digits(s.skip(1))
    }
}

/// The value of a string of decimal digits.
pub open spec fn decimal(s: Seq<char>) -> nat
    decreases s.len(),
{
    if s.len() == 0 {
        0
    } else {
        decimal(s.drop_last()) * 10 + digit_value(s.last())
    }
}

/// The decimal digits of `n`, without leading zeros.
pub open spec fn decimal_text(n: nat) -> Seq<char>
    decreases n,
{
    if n < 10 {
        seq![digit_of(n)]
    } else {
        decimal_text(n / 10).push(digit_of(n % 10))
    }
}

/// The seconds in one of a unit: `s`, `m`, `h` or `d`.
pub open spec fn unit_seconds(unit: Seq<char>) -> Option<nat> {
    if unit == seq!['s'] {
        Some(1)
    } else if unit == seq!['m'] {
        Some(60)
    } else if unit == seq!['h'] {
        Some(3600)
    } else if unit == seq!['d'] {
        Some(86400)
    } else {
        None
    }
}

/// What is wrong with a duration on the command line.
#[derive(Debug, Clone, Copy, PartialEq, Eq, Structural)]
pub enum DurationFault {
    MissingUnit,
    MissingNumber,
    InvalidNumber,
    UnknownUnit,
    TooLarge,
    Zero,
}

/// The seconds of a duration written as digits and a unit, without
/// surrounding whitespace.
pub open spec fn duration_seconds(t: Seq<char>) -> Result<nat, DurationFault> {
    let k = leading_digits(t);
    if k == t.len() {
        Err(DurationFault::MissingUnit)
    } else if k == 0 {
        Err(DurationFault::MissingNumber)
    } else if decimal(t.take(k as int)) > u64::MAX {
        Err(DurationFault::InvalidNumber)
    } else {
        match unit_seconds(t.skip(k as int)) {
            None => Err(DurationFault::UnknownUnit),
            Some(unit) => {
                let seconds = decimal(t.take(k as int)) * unit;
                if seconds > u64::MAX {
                    Err(DurationFault::TooLarge)
                } else if seconds == 0 {
                    Err(DurationFault::Zero)
                } else {
                    Ok(seconds)
                }
            },
        }
    }
}

/// The message for what is wrong with the duration `t`.
pub open spec fn fault_message(fault: DurationFault, t: Seq<char>) -> Seq<char> {
    match fault {
        DurationFault::MissingUnit => "missing unit suffix in "@ + debug_quoted(t) + " (expected s, m, h, or d)"@,
        DurationFault::MissingNumber => "missing number before unit in "@ + debug_quoted(t)
            + " (expected e.g. 30s, 5m, 2h, 1d)"@,
        DurationFault::InvalidNumber => "invalid number in "@ + debug_quoted(t),
        DurationFault::UnknownUnit => "unknown unit "@ + debug_quoted(t.skip(leading_digits(t) as int))
            + " (expected s, m, h, or d)"@,
        DurationFault::TooLarge => "duration value too large"@,
        DurationFault::Zero => "duration must be greater than zero"@,
    }
}

/// The duration written as `t`, or the message of what is wrong with it.
pub open spec fn parsed_duration(t: Seq<char>, r: Result<Duration, String>) -> bool {
    match duration_seconds(t) {
        Ok(seconds) => r matches Ok(d) && d@ == seconds * 1_000_000_000,
        Err(fault) => r matches Err(message) && message@ == fault_message(fault, t),
    }
}

/// How a whole number of seconds is written: in the largest of days,
/// hours, minutes and seconds that divides it.
pub open spec fn formatted(seconds: nat) -> Seq<char> {
    if seconds == 0 {
        seq!['0', 's']
    } else if seconds % 86400 == 0 {
        decimal_text(seconds / 86400).push('d')
    } else if seconds % 3600 == 0 {
        decimal_text(seconds / 3600).push('h')
    } else if seconds % 60 == 0 {
        decimal_text(seconds / 60).push('m')
    } else {
        decimal_text(seconds).push('s')
    }
}

proof fn lemma_leading_digits_bound(s: Seq<char>)
    ensures
        leading_digits(s) <= s.len(),
        forall|i: int| 0 <= i < leading_digits(s) ==> is_digit(#[trigger] s[i]),
        leading_digits(s) < s.len() ==> !is_digit(s[leading_digits(s) as int]),
    decreases s.len(),
{
    if s.len() > 0 && is_digit(s[0]) {
        lemma_leading_digits_bound(s.skip(1));
        assert forall|i: int| 0 <= i < leading_digits(s) implies is_digit(#[trigger] s[i]) by {
            if i > 0 {
                assert(s[i] == s.skip(1)[i - 1]);
            }
        }
    }
}

proof fn lemma_leading_digits_exact(s: Seq<char>, k: int)
    requires
        0 <= k <= s.len(),
        forall|i: int| 0 <= i < k ==> is_digit(#[trigger] s[i]),
        k < s.len() ==> !is_digit(s[k]),
    ensures
        leading_digits(s) == k,
    decreases k,
{
    if k > 0 {
        assert forall|i: int| 0 <= i < k - 1 implies is_digit(#[trigger] s.skip(1)[i]) by {
            assert(s.skip(1)[i] == s[i + 1]);
        }
        if k < s.len() {
            assert(s.skip(1)[k - 1] == s[k]);
        }
        lemma_leading_digits_exact(s.skip(1), k - 1);
    }
}

/// The seconds of a unit of one character.
proof fn lemma_unit_of(c: char)
    ensures
        unit_seconds(seq![c]) == (if c == 's' {
            Some(1nat)
        } else if c == 'm' {
            Some(60nat)
        } else if c == 'h' {
            Some(3600nat)
        } else if c == 'd' {
            Some(86400nat)
        } else {
            None
        }),
{
    assert(seq![c] == seq!['s'] <==> c == 's') by {
        if seq![c] == seq!['s'] {
            assert(seq![c][0] == seq!['s'][0]);
        }
    }
    assert(seq![c] == seq!['m'] <==> c == 'm') by {
        if seq![c] == seq!['m'] {
            assert(seq![c][0] == seq!['m'][0]);
        }
    }
    assert(seq![c] == seq!['h'] <==> c == 'h') by {
        if seq![c] == seq!['h'] {
            assert(seq![c][0] == seq!['h'][0]);
        }
    }
    assert(seq![c] == seq!['d'] <==> c == 'd') by {
        if seq![c] == seq!['d'] {
            assert(seq![c][0] == seq!['d'][0]);
        }
    }
}

proof fn lemma_digit_of(d: nat)
    requires
        d < 10,
    ensures
        is_digit(digit_of(d)),
        digit_value(digit_of(d)) == d,
{
}

proof fn lemma_decimal_text(n: nat)
    ensures
        decimal_text(n).len() > 0,
        forall|i: int| 0 <= i < decimal_text(n).len() ==> is_digit(#[trigger] decimal_text(n)[i]),
        decimal(decimal_text(n)) == n,
    decreases n,
{
    if n < 10 {
        lemma_digit_of(n);
        let t = seq![digit_of(n)];
        assert(t.drop_last() =~= Seq::<char>::empty());
        assert(decimal(t) == decimal(t.drop_last()) * 10 + digit_value(t.last()));
    } else {
        lemma_decimal_text(n / 10);
        lemma_digit_of(n % 10);
        let t = decimal_text(n / 10).push(digit_of(n % 10));
        assert(t.drop_last() =~= decimal_text(n / 10));
        assert(t.last() == digit_of(n % 10));
        assert(decimal(t) == decimal(t.drop_last()) * 10 + digit_value(t.last()));
        assert((n / 10) * 10 + n % 10 == n);
        assert forall|i: int| 0 <= i < t.len() implies is_digit(#[trigger] t[i]) by {
            if i < t.len() - 1 {
                assert(t[i] == decimal_text(n / 10)[i]);
            }
        }
    }
}

/// Any whole number of seconds from one on, written out and read back, is
/// the same number; what is written starts with a digit and ends with a
/// letter, so no whitespace is trimmed from it.
pub proof fn law_format_then_parse(seconds: u64)
    requires
        seconds >= 1,
    ensures
        duration_seconds(formatted(seconds as nat)) == Ok::<nat, DurationFault>(seconds as nat),
        trimmed(formatted(seconds as nat)) == formatted(seconds as nat),
        is_ascii_alphanumeric(formatted(seconds as nat)[0]),
        is_ascii_alphanumeric(formatted(seconds as nat).last()),
{
    let s = seconds as nat;
    let (q, unit, u) = if s % 86400 == 0 {
        (s / 86400, 'd', 86400nat)
    } else if s % 3600 == 0 {
        (s / 3600, 'h', 3600nat)
    } else if s % 60 == 0 {
        (s / 60, 'm', 60nat)
    } else {
        (s, 's', 1nat)
    };
    assert(q * u == s && q >= 1) by (nonlinear_arith)
        requires
            (u == 86400 && s % 86400 == 0 && q == s / 86400) || (u == 3600 && s % 3600 == 0 && q == s / 3600)
                || (u == 60 && s % 60 == 0 && q == s / 60) || (u == 1 && q == s),
            s >= 1,
    ;
    let text = decimal_text(q);
    let t = text.push(unit);
    assert(formatted(s) == t);
    lemma_decimal_text(q);
    lemma_leading_digits_exact(t, text.len() as int);
    assert(t.take(text.len() as int) =~= text);
    assert(t.skip(text.len() as int) =~= seq![unit]);
    assert(q <= s) by (nonlinear_arith)
        requires
            q * u == s,
            u >= 1,
    ;
    assert(t[0] == text[0]);
    assert(leading_digits(t) == text.len());
    assert(decimal(t.take(text.len() as int)) == q);
    assert(unit_seconds(t.skip(text.len() as int)) == Some(u)) by {
        assert(t.skip(text.len() as int) == seq![unit]);
        lemma_unit_of(unit);
    }
    assert(is_ascii_alphanumeric(t[0]) && is_ascii_alphanumeric(t.last()));
    lemma_trimmed_unchanged(t);
}

/// The digit of a value below ten.
fn digit_char(d: u64) -> (r: char)
    requires
        d < 10,
    ensures
        r == digit_of(d as nat),
{
    if d == 0 { '0' }
    else if d == 1 { '1' }
    else if d == 2 { '2' }
    else if d == 3 { '3' }
    else if d == 4 { '4' }
    else if d == 5 { '5' }
    else if d == 6 { '6' }
    else if d == 7 { '7' }
    else if d == 8 { '8' }
    else { '9' }
}

/// Appends the decimal digits of `n` to `s`.
pub(crate) fn push_decimal(s: &mut String, n: u64)
    ensures
        final(s)@ == old(s)@ + decimal_text(n as nat),
    decreases n,
{
    if n >= 10 {
        push_decimal(s, n / 10);
    }
    push_char(s, digit_char(n % 10));
    proof {
        if n < 10 {
            assert(old(s)@.push(digit_of(n as nat)) =~= old(s)@ + seq![digit_of(n as nat)]);
        } else {
            assert((old(s)@ + decimal_text((n / 10) as nat)).push(digit_of((n % 10) as nat)) =~= old(s)@
                + decimal_text((n / 10) as nat).push(digit_of((n % 10) as nat)));
        }
    }
}

/// How a duration is written: its whole seconds in the largest of days,
/// hours, minutes and seconds that divides them.
pub fn format_duration(d: Duration) -> (r: String)
    ensures
        r@ == formatted(d@ / 1_000_000_000),
{
    let secs = d.as_secs();
    let mut out = String::new();
    if secs == 0 {
        push_char(&mut out, '0');
        push_char(&mut out, 's');
        assert(out@ =~= seq!['0', 's']);
        return out;
    }
    let (count, unit) = if secs % 86400 == 0 {
        (secs / 86400, 'd')
    } else if secs % 3600 == 0 {
        (secs / 3600, 'h')
    } else if secs % 60 == 0 {
        (secs / 60, 'm')
    } else {
        (secs, 's')
    };
    push_decimal(&mut out, count);
    push_char(&mut out, unit);
    assert(out@ =~= decimal_text(count as nat).push(unit));
    out
}

/// The message for `fault` in the duration `t`.
fn fault_text(fault: DurationFault, t: &str, digits: usize) -> (r: String)
    requires
        digits == leading_digits(t@),
    ensures
        r@ == fault_message(fault, t@),
{
    proof {
        lemma_leading_digits_bound(t@);
    }
    match fault {
        DurationFault::MissingUnit => {
            let mut m = String::from_str("missing unit suffix in ");
            m.append(quoted(t).as_str());
            m.append(" (expected s, m, h, or d)");
            m
        },
        DurationFault::MissingNumber => {
            let mut m = String::from_str("missing number before unit in ");
            m.append(quoted(t).as_str());
            m.append(" (expected e.g. 30s, 5m, 2h, 1d)");
            m
        },
        DurationFault::InvalidNumber => {
            let mut m = String::from_str("invalid number in ");
            m.append(quoted(t).as_str());
            m
        },
        DurationFault::UnknownUnit => {
            let suffix = t.substring_char(digits, t.unicode_len());
            assert(suffix@ =~= t@.skip(digits as int));
            let mut m = String::from_str("unknown unit ");
            m.append(quoted(suffix).as_str());
            m.append(" (expected s, m, h, or d)");
            m
        },
        DurationFault::TooLarge => String::from_str("duration value too large"),
        DurationFault::Zero => String::from_str("duration must be greater than zero"),
    }
}

/// The duration written as `t`, which has no surrounding whitespace: digits
/// and a unit of `s`, `m`, `h` or `d`, making a positive number of seconds;
/// or the message of what is wrong.
pub fn parse_trimmed_duration(t: &str) -> (r: Result<Duration, String>)
    ensures
        parsed_duration(t@, r),
{
    let mut chars: Vec<char> = Vec::new();
    for c in it: t.chars()
        invariant
            it.seq() == t@,
            chars@ == it.seq().take(it.index() as int),
    {
        chars.push(c);
        assert(chars@ =~= it.seq().take(it.index() + 1));
    }
    assert(t@.take(t@.len() as int) =~= t@);
    let n = chars.len();
    let mut k: usize = 0;
    while k < n && '0' <= chars[k] && chars[k] <= '9'
        invariant
            n == chars@.len(),
            chars@ == t@,
            k <= n,
            forall|i: int| 0 <= i < k ==> is_digit(#[trigger] chars@[i]),
        decreases n - k,
    {
        k = k + 1;
    }
    proof {
        lemma_leading_digits_exact(t@, k as int);
    }
    if k == n {
        return Err(fault_text(DurationFault::MissingUnit, t, k));
    }
    if k == 0 {
        return Err(fault_text(DurationFault::MissingNumber, t, k));
    }
    let mut value: u64 = 0;
    let mut i: usize = 0;
    while i < k
        invariant
            n == chars@.len(),
            chars@ == t@,
            0 < k < n,
            k == leading_digits(t@),
            i <= k,
            forall|j: int| 0 <= j < k ==> is_digit(#[trigger] chars@[j]),
            value == decimal(t@.take(i as int)),
        decreases k - i,
    {
        assert(t@.take(i + 1).drop_last() =~= t@.take(i as int));
        assert(t@.take(i + 1).last() == chars@[i as int]);
        let d = (chars[i] as u32 - '0' as u32) as u64;
        let next = match value.checked_mul(10) {
            Some(v) => v.checked_add(d),
            None => None,
        };
        match next {
            Some(v) => {
                value = v;
            },
            None => {
                proof {
                    let digits = t@.take(k as int);
                    assert forall|j: int| 0 <= j < digits.len() implies is_digit(#[trigger] digits[j]) by {
                        assert(digits[j] == chars@[j]);
                    }
                    lemma_decimal_grows(digits, i + 1);
                    assert(digits.take(i + 1) =~= t@.take(i + 1));
                    assert(decimal(t@.take(i + 1)) == decimal(t@.take(i as int)) * 10 + digit_value(chars@[i as int]));
                }
                return Err(fault_text(DurationFault::InvalidNumber, t, k));
            },
        }
        i = i + 1;
    }
    let unit: Option<u64> = if n == k + 1 {
        let c = chars[k];
        if c == 's' {
            Some(1)
        } else if c == 'm' {
            Some(60)
        } else if c == 'h' {
            Some(3600)
        } else if c == 'd' {
            Some(86400)
        } else {
            None
        }
    } else {
        None
    };
    proof {
        let suffix = t@.skip(k as int);
        if n == k + 1 {
            assert(suffix =~= seq![chars@[k as int]]);
            lemma_unit_of(chars@[k as int]);
        } else {
            assert(suffix.len() != 1);
            assert(suffix != seq!['s']);
            assert(suffix != seq!['m']);
            assert(suffix != seq!['h']);
            assert(suffix != seq!['d']);
        }
    }
    let unit = match unit {
        Some(u) => u,
        None => return Err(fault_text(DurationFault::UnknownUnit, t, k)),
    };
    let seconds = match value.checked_mul(unit) {
        Some(s) => s,
        None => return Err(fault_text(DurationFault::TooLarge, t, k)),
    };
    if seconds == 0 {
        return Err(fault_text(DurationFault::Zero, t, k));
    }
    Ok(Duration::from_secs(seconds))
}

/// A number with more digits is at least as large as the one made of its
/// first digits.
proof fn lemma_decimal_grows(s: Seq<char>, i: int)
    requires
        0 <= i <= s.len(),
        forall|j: int| 0 <= j < s.len() ==> is_digit(#[trigger] s[j]),
    ensures
        decimal(s.take(i)) <= decimal(s),
    decreases s.len() - i,
{
    if i < s.len() {
        lemma_decimal_grows(s, i + 1);
        assert(s.take(i + 1).drop_last() =~= s.take(i));
    } else {
        assert(s.take(i) =~= s);
    }
}

/// The duration written as `s`, with surrounding whitespace ignored: digits
/// and a unit of `s`, `m`, `h` or `d`; or the message of what is wrong.
pub fn parse_duration(s: &str) -> (r: Result<Duration, String>)
    ensures
        parsed_duration(trimmed(s@), r),
{
    let t = trim(s);
    parse_trimmed_duration(t.as_str())
}

} // verus!
