//! Numbers in messages.

use vstd::prelude::*;

verus! {

/// The character of a decimal digit.
pub open spec fn digit_char(digit: int) -> char {
    seq!['0', '1', '2', '3', '4', '5', '6', '7', '8', '9'][digit]
}

/// The decimal digits of a number.
pub open spec fn digits(n: nat) -> Seq<char>
    decreases n,
{
    if n < 10 {
        seq![digit_char(n as int)]
    } else {
        digits(n / 10).push(digit_char((n % 10) as int))
    }
}

/// An integer in decimal notation.
pub open spec fn decimal(n: int) -> Seq<char> {
    if n < 0 {
        seq!['-'] + digits((-n) as nat)
    } else {
        digits(n as nat)
    }
}

fn digit_text(digit: u64) -> (result: &'static str)
    requires
        digit < 10,
    ensures
        result@ == seq![digit_char(digit as int)],
{
    proof {
        reveal_strlit("0");
        reveal_strlit("1");
        reveal_strlit("2");
        reveal_strlit("3");
        reveal_strlit("4");
        reveal_strlit("5");
        reveal_strlit("6");
        reveal_strlit("7");
        reveal_strlit("8");
        reveal_strlit("9");
    }
    let result = if digit == 0 {
        "0"
    } else if digit == 1 {
        "1"
    } else if digit == 2 {
        "2"
    } else if digit == 3 {
        "3"
    } else if digit == 4 {
        "4"
    } else if digit == 5 {
        "5"
    } else if digit == 6 {
        "6"
    } else if digit == 7 {
        "7"
    } else if digit == 8 {
        "8"
    } else {
        "9"
    };
    assert(result@ =~= seq![digit_char(digit as int)]);
    result
}

/// Appends a number in decimal notation.
pub fn append_number(text: &mut String, n: u64)
    ensures
        final(text)@ == old(text)@ + decimal(n as int),
    decreases n,
{
    if n >= 10 {
        append_number(text, n / 10);
    }
    text.append(digit_text(n % 10));
    assert(text@ =~= old(text)@ + digits(n as nat));
}

/// Appends an integer in decimal notation.
pub fn append_integer(text: &mut String, n: i32)
    ensures
        final(text)@ == old(text)@ + decimal(n as int),
{
    if n < 0 {
        proof {
            reveal_strlit("-");
        }
        text.append("-");
        append_number(text, (-(n as i64)) as u64);
        assert("-"@ =~= seq!['-']);
        assert(text@ =~= old(text)@ + decimal(n as int));
    } else {
        append_number(text, n as u64);
    }
}

/// The number that decimal digits stand for.
pub open spec fn digits_value(text: Seq<char>) -> int
    decreases text.len(),
{
    if text.len() == 0 {
        0
    } else {
        10 * digits_value(text.drop_last()) + (text.last() as u32 - '0' as u32)
    }
}

/// The digits of a number are characters from `'0'` to `'9'` that stand for the number, with
/// no `'0'` in front unless the number is 0, which has one digit.
pub proof fn law_digits_stand_for_the_number(n: nat)
    ensures
        digits_value(digits(n)) == n,
        digits(n).len() > 0,
        forall|i: int| 0 <= i < digits(n).len() ==> '0' <= #[trigger] digits(n)[i] <= '9',
        digits(n)[0] == '0' ==> n == 0 && digits(n).len() == 1,
    decreases n,
{
    if n < 10 {
        reveal_with_fuel(digits_value, 2);
    } else {
        law_digits_stand_for_the_number(n / 10);
        assert(digits(n).drop_last() =~= digits(n / 10));
        assert(digits(n)[0] == digits(n / 10)[0]);
    }
}

/// A number from 0 on is written with its digits, and a negative one with a minus sign and
/// the digits of its opposite.
pub proof fn law_decimal_notation(n: int)
    ensures
        n >= 0 ==> '0' <= decimal(n)[0] <= '9' && digits_value(decimal(n)) == n,
        n < 0 ==> decimal(n)[0] == '-' && digits_value(decimal(n).drop_first()) == -n,
        decimal(n).len() > 0,
        forall|i: int|
            1 <= i < decimal(n).len() ==> '0' <= #[trigger] decimal(n)[i] <= '9',
        n != 0 ==> decimal(n)[if n < 0 { 1int } else { 0int }] != '0',
        n == 0 ==> decimal(n).len() == 1,
{
    if n < 0 {
        law_digits_stand_for_the_number((-n) as nat);
        assert(decimal(n).drop_first() =~= digits((-n) as nat));
    } else {
        law_digits_stand_for_the_number(n as nat);
    }
}

/// Appending a number keeps the text before it and adds digits that stand for the number.
/// A small enough number is written alike by both ways to append one.
pub proof fn law_append_number(text: &mut String, n: u64, other: &mut String, same: i32)
    requires
        call_ensures(append_number, (text, n), ()),
        *other == *text,
        call_ensures(append_integer, (other, same), ()),
    ensures
        final(text)@.len() > old(text)@.len(),
        final(text)@.take(old(text)@.len() as int) == old(text)@,
        digits_value(final(text)@.skip(old(text)@.len() as int)) == n,
        same == n ==> final(other)@ == final(text)@,
{
    law_decimal_notation(n as int);
    assert(final(text)@.take(old(text)@.len() as int) =~= old(text)@);
    assert(final(text)@.skip(old(text)@.len() as int) =~= decimal(n as int));
}

/// Appending an integer keeps the text before it. A negative integer adds a minus sign and
/// what its opposite adds.
pub proof fn law_append_integer(text: &mut String, n: i32, other: &mut String)
    requires
        n < 0,
        call_ensures(append_integer, (text, n), ()),
        *other == *text,
        call_ensures(append_number, (other, (-n) as u64), ()),
    ensures
        final(text)@ == old(text)@ + seq!['-'] + final(other)@.skip(old(text)@.len() as int),
{
    assert(final(other)@.skip(old(text)@.len() as int) =~= decimal(-n));
    assert(final(text)@ =~= old(text)@ + seq!['-'] + decimal(-n));
}

} // verus!
