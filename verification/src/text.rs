//! Texts and decimal numbers.
use vstd::prelude::*;
use vstd::string::*;

verus! {

/// Strings as sequences of characters.
pub open spec fn texts_of(strings: Seq<String>) -> Seq<Seq<char>> {
    strings.map_values(|s: String| s@)
}

/// The digit `d` as text; `d` counts from 0 to 9.
pub open spec fn digit_text(d: nat) -> Seq<char> {
    seq![((48 + d) as u32) as char]
}

/// `n` in decimal digits, without leading zeros.
pub open spec fn decimal(n: nat) -> Seq<char>
    decreases n,
{
    if n < 10 {
        digit_text(n)
    } else {
        decimal(n / 10) + digit_text(n % 10)
    }
}

/// The digit `d` as a string slice.
fn digit_str(d: u32) -> (s: &'static str)
    requires
        d < 10,
    ensures
        s@ == digit_text(d as nat),
{
    proof {
        reveal_strlit("0");
        reveal_strlit("1");
        reveal_strlit("2");
        reveal_strlit("3");
        reveal_strlit("4");
        reveal_strlit("5");
        reveal_strlit("6");
        reveal_strlit("7");
        reveal_strlit("8");
        reveal_strlit("9");
    }
    match d {
        0 => "0",
        1 => "1",
        2 => "2",
        3 => "3",
        4 => "4",
        5 => "5",
        6 => "6",
        7 => "7",
        8 => "8",
        _ => "9",
    }
}

/// Writes `n` in decimal digits.
pub fn to_decimal(n: u32) -> (text: String)
    ensures
        text@ == decimal(n as nat),
    decreases n,
{
    if n < 10 {
        digit_str(n).to_owned()
    } else {
        let mut text: String = to_decimal(n / 10);
        text.append(digit_str(n % 10));
        text
    }
}

/// Strings keep their number, their order and their characters.
pub proof fn texts_keep_strings(strings: Seq<String>)
    ensures
        texts_of(strings).len() == strings.len(),
        forall|i: int| 0 <= i < strings.len() ==> #[trigger] texts_of(strings)[i] == strings[i]@,
{
}

/// Decimal digits are read from the left: to write a digit behind a number is to multiply
/// the number by ten and to add the digit, and a number below ten is one digit.
pub proof fn decimal_reads_back(n: nat, d: nat)
    requires
        d < 10,
    ensures
        decimal(d) == seq![(('0' as u32 + d) as u32) as char],
        n > 0 ==> decimal(10 * n + d) == decimal(n).push((('0' as u32 + d) as u32) as char),
{
    if n > 0 {
        assert((10 * n + d) / 10 == n);
        assert((10 * n + d) % 10 == d);
        assert(decimal(10 * n + d) =~= decimal(n).push((('0' as u32 + d) as u32) as char));
    }
}

/// A number is written in digits only, with no zero in front of another digit.
pub proof fn decimal_has_no_leading_zero(n: nat)
    ensures
        decimal(n).len() > 0,
        forall|i: int| 0 <= i < decimal(n).len() ==> '0' <= #[trigger] decimal(n)[i] <= '9',
        decimal(n)[0] == '0' <==> n == 0,
    decreases n,
{
    if n >= 10 {
        decimal_has_no_leading_zero(n / 10);
    }
}

/// Numbers that are written alike are the same.
pub proof fn decimal_determines_number(n: nat, m: nat)
    requires
        decimal(n) == decimal(m),
    ensures
        n == m,
    decreases n,
{
    decimal_has_no_leading_zero(n);
    decimal_has_no_leading_zero(m);
    if n >= 10 {
        decimal_has_no_leading_zero(n / 10);
    }
    if m >= 10 {
        decimal_has_no_leading_zero(m / 10);
    }
    assert(decimal(n).last() == (((48 + n % 10) as u32) as char));
    assert(decimal(m).last() == (((48 + m % 10) as u32) as char));
    assert(n % 10 == m % 10);
    assert(n < 10 <==> decimal(n).len() == 1);
    assert(m < 10 <==> decimal(m).len() == 1);
    if n >= 10 && m >= 10 {
        assert(decimal(n).drop_last() =~= decimal(n / 10));
        assert(decimal(m).drop_last() =~= decimal(m / 10));
        decimal_determines_number(n / 10, m / 10);
    }
}

} // verus!
