//! The text of numbers and addresses as they appear in error reports.

use vstd::prelude::*;
use vstd::string::*;

verus! {

/// The digit of value `d`, in lower case where `d` is ten or more.
pub open spec fn digit(d: nat) -> char
    recommends
        d < 16,
{
    seq!['0', '1', '2', '3', '4', '5', '6', '7', '8', '9', 'a', 'b', 'c', 'd', 'e', 'f'][d as int]
}

/// `n` in base ten, without leading zeros.
pub open spec fn decimal(n: nat) -> Seq<char>
    decreases n,
{
    if n < 10 {
        seq![digit(n)]
    } else {
        decimal(n / 10).push(digit(n % 10))
    }
}

/// `n` in base sixteen, without leading zeros.
pub open spec fn hexadecimal(n: nat) -> Seq<char>
    decreases n,
{
    if n < 16 {
        seq![digit(n)]
    } else {
        hexadecimal(n / 16).push(digit(n % 16))
    }
}

/// `i` in base ten, after a minus sign where it is negative.
pub open spec fn signed_decimal(i: int) -> Seq<char> {
    if i < 0 {
        seq!['-'] + decimal((-i) as nat)
    } else {
        decimal(i as nat)
    }
}

/// An address: `0x` and its hexadecimal digits.
pub open spec fn address(a: nat) -> Seq<char> {
    seq!['0', 'x'] + hexadecimal(a)
}

fn append_digit(text: &mut String, d: u64)
    requires
        d < 16,
    ensures
        final(text)@ == old(text)@.push(digit(d as nat)),
{
    proof {
        reveal_strlit("0");
        reveal_strlit("1");
        reveal_strlit("2");
        reveal_strlit("3");
        reveal_strlit("4");
        reveal_strlit("5");
        reveal_strlit("6");
        reveal_strlit("7");
        reveal_strlit("8");
        reveal_strlit("9");
        reveal_strlit("a");
        reveal_strlit("b");
        reveal_strlit("c");
        reveal_strlit("d");
        reveal_strlit("e");
        reveal_strlit("f");
    }
    let glyph = match d {
        0 => "0",
        1 => "1",
        2 => "2",
        3 => "3",
        4 => "4",
        5 => "5",
        6 => "6",
        7 => "7",
        8 => "8",
        9 => "9",
        10 => "a",
        11 => "b",
        12 => "c",
        13 => "d",
        14 => "e",
        _ => "f",
    };
    text.append(glyph);
    assert(glyph@ =~= seq![digit(d as nat)]);
    assert(text@ =~= old(text)@.push(digit(d as nat)));
}

fn append_decimal(text: &mut String, n: u64)
    ensures
        final(text)@ == old(text)@ + decimal(n as nat),
    decreases n,
{
    if n >= 10 {
        append_decimal(text, n / 10);
    }
    append_digit(text, n % 10);
    assert(text@ =~= old(text)@ + decimal(n as nat));
}

fn append_hexadecimal(text: &mut String, n: u64)
    ensures
        final(text)@ == old(text)@ + hexadecimal(n as nat),
    decreases n,
{
    if n >= 16 {
        append_hexadecimal(text, n / 16);
    }
    append_digit(text, n % 16);
    assert(text@ =~= old(text)@ + hexadecimal(n as nat));
}

/// Writes an unsigned number in base ten.
pub fn decimal_text(n: u64) -> (text: String)
    ensures
        text@ == decimal(n as nat),
{
    let mut text = String::new();
    append_decimal(&mut text, n);
    assert(text@ =~= decimal(n as nat));
    text
}

/// Writes a signed number in base ten.
pub fn signed_text(i: i64) -> (text: String)
    ensures
        text@ == signed_decimal(i as int),
{
    let mut text = String::new();
    if i < 0 {
        proof {
            reveal_strlit("-");
        }
        text.append("-");
        let below: u64 = (-(i + 1)) as u64;
        append_decimal(&mut text, below + 1);
        assert(text@ =~= signed_decimal(i as int));
    } else {
        append_decimal(&mut text, i as u64);
        assert(text@ =~= signed_decimal(i as int));
    }
    text
}

/// Writes an address the way pointers are printed.
pub fn address_text(a: usize) -> (text: String)
    ensures
        text@ == address(a as nat),
{
    proof {
        reveal_strlit("0x");
    }
    let mut text = String::new();
    text.append("0x");
    append_hexadecimal(&mut text, a as u64);
    assert(text@ =~= address(a as nat));
    text
}

} // verus!
