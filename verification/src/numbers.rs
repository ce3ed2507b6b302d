//! Numbers as they are typed: a line number on the command line or behind
//! a command.

use crate::chars::string_of;
use crate::log::parser::{all_digits, digits_value};
use vstd::prelude::*;
use vstd::string::*;

verus! {

/// The plus sign that may stand before a number.
pub const PLUS: u8 = 43;

/// The digits of a typed number: the text without the plus sign before it.
pub open spec fn digits_of(text: Seq<u8>) -> Seq<u8> {
    if text.len() > 0 && text[0] == PLUS {
        text.skip(1)
    } else {
        text
    }
}

/// The number that a text writes in ASCII digits, with or without a plus
/// sign before them; `None` where the text holds no digit, anything that
/// is no digit, or a number too great for `usize`.
pub open spec fn decimal_of(text: Seq<u8>) -> Option<usize> {
    let digits = digits_of(text);
    if digits.len() > 0 && all_digits(digits) && digits_value(digits) <= usize::MAX {
        Some(digits_value(digits) as usize)
    } else {
        None
    }
}

/// Digits that follow can only make a number greater.
pub proof fn lemma_digits_grow(digits: Seq<u8>, count: int)
    requires
        all_digits(digits),
        0 <= count <= digits.len(),
    ensures
        0 <= digits_value(digits.take(count)) <= digits_value(digits),
    decreases digits.len() - count,
{
    if count == digits.len() {
        assert(digits.take(count) =~= digits);
        lemma_digits_nonnegative(digits);
    } else {
        lemma_digits_grow(digits, count + 1);
        assert(digits.take(count + 1).drop_last() =~= digits.take(count));
        assert(digits.take(count + 1).last() == digits[count]);
        assert(all_digits(digits.take(count))) by {
            assert forall|i: int| 0 <= i < digits.take(count).len() implies 48
                <= #[trigger] digits.take(count)[i] <= 57 by {
                assert(digits.take(count)[i] == digits[i]);
            }
        }
        lemma_digits_nonnegative(digits.take(count));
    }
}

/// Digits write no negative number.
pub proof fn lemma_digits_nonnegative(digits: Seq<u8>)
    requires
        all_digits(digits),
    ensures
        0 <= digits_value(digits),
    decreases digits.len(),
{
    if digits.len() > 0 {
        assert(all_digits(digits.drop_last())) by {
            assert forall|i: int| 0 <= i < digits.drop_last().len() implies 48
                <= #[trigger] digits.drop_last()[i] <= 57 by {
                assert(digits.drop_last()[i] == digits[i]);
            }
        }
        lemma_digits_nonnegative(digits.drop_last());
    }
}

/// Reads a number written in ASCII digits, with or without a plus sign
/// before them.
pub fn parse_decimal(text: &str) -> (res: Option<usize>)
    ensures
        res == decimal_of(text.spec_bytes()),
{
    let bytes = text.as_bytes();
    let n = bytes.len();
    let start: usize = if n > 0 && bytes[0] == PLUS {
        1
    } else {
        0
    };
    if start >= n {
        return None;
    }
    let ghost digits = digits_of(bytes@);
    proof {
        assert(digits =~= bytes@.subrange(start as int, n as int));
        assert(digits.take(0) =~= Seq::<u8>::empty());
    }
    let mut value: usize = 0;
    let mut i: usize = start;
    while i < n
        invariant
            start <= i <= n,
            n == bytes@.len(),
            bytes@ == text.spec_bytes(),
            digits == digits_of(bytes@),
            digits == bytes@.subrange(start as int, n as int),
            all_digits(digits.take(i - start)),
            value == digits_value(digits.take(i - start)),
        decreases n - i,
    {
        let b = bytes[i];
        let ghost next = digits.take(i - start + 1);
        proof {
            assert(next.drop_last() =~= digits.take(i - start));
            assert(next.last() == b);
            assert(digits[i - start] == b);
        }
        if b < 48 || b > 57 {
            return None;
        }
        let d = (b - 48) as usize;
        proof {
            assert(all_digits(next)) by {
                assert forall|k: int| 0 <= k < next.len() implies 48 <= #[trigger] next[k]
                    <= 57 by {
                    if k < i - start {
                        assert(digits.take(i - start)[k] == next[k]);
                    }
                }
            }
        }
        if value > (usize::MAX - d) / 10 {
            proof {
                assert(digits_value(next) > usize::MAX);
                if all_digits(digits) {
                    lemma_digits_grow(digits, i - start + 1);
                }
            }
            return None;
        }
        value = value * 10 + d;
        i = i + 1;
    }
    proof {
        assert(digits.take(n - start) =~= digits);
    }
    Some(value)
}

/// The ASCII digit for a number below ten.
pub open spec fn digit_char(d: int) -> char {
    if d <= 0 {
        '0'
    } else if d == 1 {
        '1'
    } else if d == 2 {
        '2'
    } else if d == 3 {
        '3'
    } else if d == 4 {
        '4'
    } else if d == 5 {
        '5'
    } else if d == 6 {
        '6'
    } else if d == 7 {
        '7'
    } else if d == 8 {
        '8'
    } else {
        '9'
    }
}

/// The digits that write a number in base ten, without zeros before them.
pub open spec fn decimal_digits(n: nat) -> Seq<char>
    decreases n,
{
    if n < 10 {
        seq![digit_char(n as int)]
    } else {
        decimal_digits(n / 10).push(digit_char((n % 10) as int))
    }
}

/// The three digits that write a number below a thousand, with zeros
/// before them where it is below a hundred.
pub open spec fn three_digits(n: nat) -> Seq<char> {
    seq![digit_char((n / 100) as int), digit_char((n / 10 % 10) as int), digit_char((n % 10) as int)]
}

/// The digits that write a number in base ten, with a comma before every
/// three digits from the right.
pub open spec fn grouped_digits(n: nat) -> Seq<char>
    decreases n,
{
    if n < 1000 {
        decimal_digits(n)
    } else {
        grouped_digits(n / 1000) + seq![','] + three_digits(n % 1000)
    }
}

/// The ASCII digit for a number below ten.
pub fn digit(d: usize) -> (c: char)
    requires
        d < 10,
    ensures
        c == digit_char(d as int),
{
    if d == 0 {
        '0'
    } else if d == 1 {
        '1'
    } else if d == 2 {
        '2'
    } else if d == 3 {
        '3'
    } else if d == 4 {
        '4'
    } else if d == 5 {
        '5'
    } else if d == 6 {
        '6'
    } else if d == 7 {
        '7'
    } else if d == 8 {
        '8'
    } else {
        '9'
    }
}

/// Writes the digits of a number behind `out`.
fn push_decimal(out: &mut Vec<char>, n: usize)
    ensures
        final(out)@ == old(out)@ + decimal_digits(n as nat),
    decreases n,
{
    if n < 10 {
        out.push(digit(n));
        proof {
            assert(out@ =~= old(out)@ + decimal_digits(n as nat));
        }
    } else {
        push_decimal(out, n / 10);
        out.push(digit(n % 10));
        proof {
            assert(out@ =~= old(out)@ + decimal_digits(n as nat));
        }
    }
}

/// Writes the digits of a number behind `out`, with a comma before every
/// three digits from the right.
fn push_grouped(out: &mut Vec<char>, n: usize)
    ensures
        final(out)@ == old(out)@ + grouped_digits(n as nat),
    decreases n,
{
    if n < 1000 {
        push_decimal(out, n);
    } else {
        push_grouped(out, n / 1000);
        let low = n % 1000;
        out.push(',');
        out.push(digit(low / 100));
        out.push(digit(low / 10 % 10));
        out.push(digit(low % 10));
        proof {
            assert(out@ =~= old(out)@ + grouped_digits(n as nat));
        }
    }
}

/// A number written in base ten.
pub fn decimal_text(n: usize) -> (text: String)
    ensures
        text@ == decimal_digits(n as nat),
{
    let mut out: Vec<char> = Vec::new();
    push_decimal(&mut out, n);
    proof {
        assert(out@ =~= decimal_digits(n as nat));
    }
    string_of(out.as_slice())
}

/// A number written in base ten, with a comma before every three digits
/// from the right: 1,234,567.
pub fn format_number(n: usize) -> (text: String)
    ensures
        text@ == grouped_digits(n as nat),
{
    let mut out: Vec<char> = Vec::new();
    push_grouped(&mut out, n);
    proof {
        assert(out@ =~= grouped_digits(n as nat));
    }
    string_of(out.as_slice())
}

} // verus!
