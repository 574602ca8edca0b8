//! What holds of characters and of numbers that are written as text.

use vstd::prelude::*;

#[allow(unused_imports)]
use crate::text::{
    all_digits, control_char, decimal, digits_value, is_digit, lower, number_within, white_space,
};

verus! {

/// Letters, digits and signs of ASCII are neither white space nor control characters; the
/// blank is white space, and so are tabs and what ends a line, which are control characters
/// too, as all others below the blank are.
pub proof fn law_plain_characters(c: char)
    ensures
        '!' <= c <= '~' ==> !white_space(c) && !control_char(c),
        white_space(' ') && !control_char(' '),
        white_space('\t') && white_space('\n') && white_space('\r'),
        c < ' ' ==> control_char(c),
        c == '\u{7f}' ==> control_char(c) && !white_space(c),
{
}

/// Capital letters of ASCII are turned into the small ones with the same number in the
/// alphabet; all other characters stay, small letters too.
pub proof fn law_capitals_are_lowered(c: char)
    ensures
        'A' <= c <= 'Z' ==> lower(c) as int - 'a' as int == c as int - 'A' as int,
        !('A' <= c <= 'Z') ==> lower(c) == c,
        lower(lower(c)) == lower(c),
{
}

/// A number is read digit by digit, each counting ten times what the next does. A plus sign
/// before it changes nothing. What holds anything else, or holds no digit, or is too large,
/// is no number.
pub proof fn law_numbers_are_read(front: Seq<char>, digit: char, limit: nat, other: int)
    requires
        is_digit(digit),
        all_digits(front),
    ensures
        number_within(seq![digit], 9) == Some((digit as int - '0' as int) as nat),
        front.len() > 0 ==> {
            let n = digits_value(front) * 10 + (digit as int - '0' as int);
            &&& n <= limit ==> number_within(front.push(digit), limit) == Some(n as nat)
            &&& n > limit ==> number_within(front.push(digit), limit) is None
            &&& number_within(front, digits_value(front)) == Some(digits_value(front))
            &&& number_within(seq!['+'] + front, limit) == number_within(front, limit)
        },
        number_within(seq![], limit) is None,
        0 < other < front.len() ==> number_within(front.update(other, 'x'), limit) is None,
{
    let one = seq![digit];
    assert(one.drop_last() =~= seq![]);
    assert(digits_value(one.drop_last()) == 0);
    assert(one.last() == digit);
    assert(digits_value(one) == digit as nat - 48);
    assert(all_digits(one));
    if front.len() > 0 {
        let longer = front.push(digit);
        assert(longer.drop_last() =~= front);
        assert(longer.last() == digit);
        assert(longer[0] == front[0]);
        assert(is_digit(front[0]));
        assert(all_digits(longer));
        let signed = seq!['+'] + front;
        assert(signed.skip(1) =~= front);
    }
    if 0 < other < front.len() {
        let wrong = front.update(other, 'x');
        assert(wrong[0] == front[0]);
        assert(is_digit(front[0]));
        assert(wrong[other] == 'x');
        assert(!all_digits(wrong));
    }
}

/// A longer number is written with the same digits in front and its last digit behind them,
/// and small ones are single digits.
pub proof fn law_numbers_are_written(n: nat, digit: nat)
    requires
        digit < 10,
    ensures
        decimal(digit) == seq![('0' as int + digit) as char],
        n > 0 ==> decimal(n * 10 + digit) == decimal(n) + decimal(digit),
{
    if n > 0 {
        assert((n * 10 + digit) / 10 == n);
        assert((n * 10 + digit) % 10 == digit);
        assert(decimal(n * 10 + digit) =~= decimal(n) + decimal(digit));
    }
}

} // verus!
