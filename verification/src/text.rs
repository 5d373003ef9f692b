//! Decimal rendering of integers and the timestamp layout used in log lines.

use vstd::prelude::*;

verus! {

/// The character of a decimal digit.
pub open spec fn digit_char(d: int) -> char {
    if d == 0 { '0' }
    else if d == 1 { '1' }
    else if d == 2 { '2' }
    else if d == 3 { '3' }
    else if d == 4 { '4' }
    else if d == 5 { '5' }
    else if d == 6 { '6' }
    else if d == 7 { '7' }
    else if d == 8 { '8' }
    else { '9' }
}

/// Decimal text of a natural number, without leading zeros.
pub open spec fn nat_text(n: nat) -> Seq<char>
    decreases n,
{
    if n < 10 {
        seq![digit_char(n as int)]
    } else {
        nat_text(n / 10).push(digit_char((n % 10) as int))
    }
}

/// Decimal text of an integer, with a leading minus sign when negative.
pub open spec fn int_text(i: int) -> Seq<char> {
    if i < 0 {
        seq!['-'] + nat_text((-i) as nat)
    } else {
        nat_text(i as nat)
    }
}

/// Decimal text padded with zeros on the left to at least two characters.
pub open spec fn pad2_text(n: nat) -> Seq<char> {
    if n < 10 {
        seq!['0'] + nat_text(n)
    } else {
        nat_text(n)
    }
}

/// The timestamp layout `YYYY-MM-DD HH:MM`: the year as plain decimal text,
/// the other fields padded to two digits.
pub open spec fn datetime_text(year: int, month: nat, day: nat, hour: nat, minute: nat) -> Seq<char> {
    int_text(year) + seq!['-'] + pad2_text(month) + seq!['-'] + pad2_text(day) + seq![' ']
        + pad2_text(hour) + seq![':'] + pad2_text(minute)
}

/// Strict order of texts character by character, as `<` orders Rust strings
/// of these characters: the first differing character decides, and a proper
/// prefix comes first.
pub open spec fn text_lt(a: Seq<char>, b: Seq<char>) -> bool {
    ||| exists|k: int|
            0 <= k < a.len() && k < b.len() && a.take(k) == b.take(k) && (#[trigger] a[k] as u32) < (b[k] as u32)
    ||| (a.len() < b.len() && a == b.take(a.len() as int))
}

/// The last `w` decimal digits of `n`, with leading zeros.
pub open spec fn fixed_digits(n: nat, w: nat) -> Seq<char>
    decreases w,
{
    if w == 0 {
        Seq::empty()
    } else {
        fixed_digits(n / 10, (w - 1) as nat).push(digit_char((n % 10) as int))
    }
}

/// Ten to the power `w`.
pub open spec fn pow10(w: nat) -> nat
    decreases w,
{
    if w == 0 {
        1
    } else {
        10 * pow10((w - 1) as nat)
    }
}

/// A leap year of the proleptic Gregorian calendar.
pub open spec fn is_leap_year(year: int) -> bool {
    year % 4 == 0 && (year % 100 != 0 || year % 400 == 0)
}

/// The number of days of a month (1 to 12) of the proleptic Gregorian calendar.
pub open spec fn days_in_month(year: int, month: int) -> int {
    if month == 2 {
        if is_leap_year(year) { 29 } else { 28 }
    } else if month == 4 || month == 6 || month == 9 || month == 11 {
        30
    } else {
        31
    }
}

/// A text of the layout `YYYY-MM-DD HH:MM` for some valid clock reading: a
/// date of the calendar and a time of day.
pub open spec fn is_timestamp(t: Seq<char>) -> bool {
    exists|year: i32, month: u32, day: u32, hour: u32, minute: u32|
        1 <= month <= 12 && 1 <= day <= days_in_month(year as int, month as int) && hour <= 23 && minute <= 59
        && t == #[trigger] datetime_text(year as int, month as nat, day as nat, hour as nat, minute as nat)
}

fn digit_str(d: u64) -> (r: &'static str)
    requires
        d < 10,
    ensures
        r@ == seq![digit_char(d as int)],
{
    if d == 0 {
        proof { reveal_strlit("0"); }
        "0"
    } else if d == 1 {
        proof { reveal_strlit("1"); }
        "1"
    } else if d == 2 {
        proof { reveal_strlit("2"); }
        "2"
    } else if d == 3 {
        proof { reveal_strlit("3"); }
        "3"
    } else if d == 4 {
        proof { reveal_strlit("4"); }
        "4"
    } else if d == 5 {
        proof { reveal_strlit("5"); }
        "5"
    } else if d == 6 {
        proof { reveal_strlit("6"); }
        "6"
    } else if d == 7 {
        proof { reveal_strlit("7"); }
        "7"
    } else if d == 8 {
        proof { reveal_strlit("8"); }
        "8"
    } else {
        proof { reveal_strlit("9"); }
        "9"
    }
}

/// Appends the decimal text of `n` to `out`.
pub fn push_nat(out: &mut String, n: u64)
    ensures
        final(out)@ == old(out)@ + nat_text(n as nat),
    decreases n,
{
    if n >= 10 {
        push_nat(out, n / 10);
        out.append(digit_str(n % 10));
        proof {
            assert(nat_text(n as nat) == nat_text((n / 10) as nat).push(digit_char((n % 10) as int)));
        }
        assert(out@ =~= old(out)@ + nat_text(n as nat));
    } else {
        out.append(digit_str(n));
    }
}

/// Appends the decimal text of `i`, with a minus sign when it is negative.
pub fn push_int(out: &mut String, i: i64)
    ensures
        final(out)@ == old(out)@ + int_text(i as int),
{
    if i < 0 {
        proof { reveal_strlit("-"); }
        out.append("-");
        let below: i64 = -(i + 1);
        let m: u64 = below as u64 + 1;
        assert(m == -(i as int));
        push_nat(out, m);
        assert(out@ =~= old(out)@ + int_text(i as int));
    } else {
        push_nat(out, i as u64);
    }
}

/// Appends the decimal text of `n`, padded with a zero to two characters.
pub fn push_pad2(out: &mut String, n: u32)
    ensures
        final(out)@ == old(out)@ + pad2_text(n as nat),
{
    if n < 10 {
        proof { reveal_strlit("0"); }
        out.append("0");
        push_nat(out, n as u64);
        assert(out@ =~= old(out)@ + pad2_text(n as nat));
    } else {
        push_nat(out, n as u64);
    }
}

/// Renders a moment as `YYYY-MM-DD HH:MM`.
pub fn format_datetime(year: i32, month: u32, day: u32, hour: u32, minute: u32) -> (s: String)
    ensures
        s@ == datetime_text(year as int, month as nat, day as nat, hour as nat, minute as nat),
{
    let mut s = String::new();
    push_int(&mut s, year as i64);
    proof { reveal_strlit("-"); reveal_strlit(" "); reveal_strlit(":"); }
    s.append("-");
    push_pad2(&mut s, month);
    s.append("-");
    push_pad2(&mut s, day);
    s.append(" ");
    push_pad2(&mut s, hour);
    s.append(":");
    push_pad2(&mut s, minute);
    assert(s@ =~= datetime_text(year as int, month as nat, day as nat, hour as nat, minute as nat));
    s
}

} // verus!
